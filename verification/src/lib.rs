//! A small reverse proxy: load balancing over pools of backends, the management API, the requests
//! that are sent upstream and the responses that are made of the answers.

pub mod api;
pub mod api_laws;
pub mod backend;
pub mod balancer;
pub mod config;
pub mod headers;
pub mod pool;
pub mod pool_history;
pub mod pool_laws;
pub mod proxy;
pub mod proxy_laws;
pub mod response;
pub mod state;
pub mod state_history;
pub mod state_laws;
pub mod text;
pub mod text_laws;
pub mod url_laws;
pub mod urls;
pub mod websocket;

pub use backend::{Backend, BackendScheme, BackendView};
pub use balancer::LoadBalancingMode;
pub use config::ProxyConfig;
pub use state::ProxyState;
pub use urls::BackendUrl;
