//! The configuration of the proxy, as the environment gives it.

use crate::balancer::{mode_from_text, normalized, LoadBalancingMode};
use crate::text::{parse_u16, same_text, to_ascii_lowercase, trim, u16_text};
use crate::urls::opt_string;
use vstd::prelude::*;

verus! {

/// The configuration of the proxy.
#[derive(Debug)]
pub struct ProxyConfig {
    pub cert_pem_base64: String,
    pub key_pem_base64: String,
    pub port: u16,
    pub enable_h2: bool,
    pub enable_h3: bool,
    pub enable_websocket: bool,
    pub initial_mode: LoadBalancingMode,
}

impl Clone for ProxyConfig {
    fn clone(&self) -> (copy: Self)
        ensures
            copy == *self,
    {
        ProxyConfig {
            cert_pem_base64: self.cert_pem_base64.clone(),
            key_pem_base64: self.key_pem_base64.clone(),
            port: self.port,
            enable_h2: self.enable_h2,
            enable_h3: self.enable_h3,
            enable_websocket: self.enable_websocket,
            initial_mode: self.initial_mode,
        }
    }
}

/// The environment variables that the configuration is made of, as far as they are set.
#[derive(Debug)]
pub struct ConfigVars {
    /// `TLS_CERT_BASE64`
    pub cert: Option<String>,
    /// `TLS_KEY_BASE64`
    pub key: Option<String>,
    /// `PROXY_PORT`
    pub port: Option<String>,
    /// `ENABLE_H2`
    pub enable_h2: Option<String>,
    /// `ENABLE_H3`
    pub enable_h3: Option<String>,
    /// `ENABLE_WEBSOCKET`
    pub enable_websocket: Option<String>,
    /// `LB_MODE`
    pub mode: Option<String>,
}

/// Why the environment gives no configuration.
#[derive(Debug)]
pub enum ConfigError {
    /// There is no certificate.
    MissingCert,
    /// There is no private key.
    MissingKey,
    /// The load-balancing mode is not a supported one.
    UnsupportedMode(String),
}

impl ConfigError {
    /// What is wrong, in words.
    pub fn message(&self) -> (text: &str)
        ensures
            match *self {
                ConfigError::MissingCert => text@
                    == "TLS_CERT_BASE64 must contain the base64-encoded PEM certificate"@,
                ConfigError::MissingKey => text@
                    == "TLS_KEY_BASE64 must contain the base64-encoded PEM private key"@,
                ConfigError::UnsupportedMode(message) => text@ == message@,
            },
    {
        match self {
            ConfigError::MissingCert => "TLS_CERT_BASE64 must contain the base64-encoded PEM certificate",
            ConfigError::MissingKey => "TLS_KEY_BASE64 must contain the base64-encoded PEM private key",
            ConfigError::UnsupportedMode(message) => message.as_str(),
        }
    }
}

/// What a variable says as a switch: on for `1`, `true` and `yes`, in any ASCII case and with
/// white space around it, and off for anything else.
pub open spec fn switch(value: Option<Seq<char>>, default: bool) -> bool {
    match value {
        Some(text) => {
            let text = normalized(text);
            text == "1"@ || text == "true"@ || text == "yes"@
        },
        None => default,
    }
}

/// What a variable says as a switch; the default where it is not set.
pub fn env_bool(value: &Option<String>, default: bool) -> (on: bool)
    ensures
        on == switch(opt_string(*value), default),
{
    match value {
        Some(text) => {
            let text = to_ascii_lowercase(trim(text.as_str()));
            same_text(&text, "1") || same_text(&text, "true") || same_text(&text, "yes")
        },
        None => default,
    }
}

/// The port that a variable gives; 443 where it is not set or is no port number.
pub open spec fn port_of(value: Option<Seq<char>>) -> u16 {
    match value {
        Some(text) => match u16_text(text) {
            Some(port) => port,
            None => 443,
        },
        None => 443,
    }
}

/// The mode that a variable gives; `LeastConn` where it is not set.
pub open spec fn mode_of(value: Option<Seq<char>>) -> Option<LoadBalancingMode> {
    match value {
        Some(text) => mode_from_text(text),
        None => Some(LoadBalancingMode::LeastConn),
    }
}

/// Whether `r` is the configuration that the given variables make, or the reason why they make none.
pub open spec fn configures(vars: ConfigVars, r: Result<ProxyConfig, ConfigError>) -> bool {
    match r {
        Ok(config) => {
            &&& vars.cert is Some
            &&& config.cert_pem_base64 == vars.cert->0
            &&& vars.key is Some
            &&& config.key_pem_base64 == vars.key->0
            &&& config.port == port_of(opt_string(vars.port))
            &&& config.enable_h2 == switch(opt_string(vars.enable_h2), true)
            &&& config.enable_h3 == switch(opt_string(vars.enable_h3), true)
            &&& config.enable_websocket == switch(opt_string(vars.enable_websocket), true)
            &&& mode_of(opt_string(vars.mode)) == Some(config.initial_mode)
        },
        Err(ConfigError::MissingCert) => vars.cert is None,
        Err(ConfigError::MissingKey) => vars.cert is Some && vars.key is None,
        Err(ConfigError::UnsupportedMode(message)) => {
            &&& vars.cert is Some
            &&& vars.key is Some
            &&& vars.mode is Some
            &&& mode_from_text(vars.mode->0@) is None
            &&& message@ == "unsupported load balancer: "@ + normalized(vars.mode->0@)
        },
    }
}

impl ProxyConfig {
    /// The configuration that the given variables make.
    pub fn from_vars(vars: ConfigVars) -> (r: Result<ProxyConfig, ConfigError>)
        ensures
            configures(vars, r),
    {
        let cert_pem_base64 = match vars.cert {
            Some(cert) => cert,
            None => {
                return Err(ConfigError::MissingCert);
            },
        };
        let key_pem_base64 = match vars.key {
            Some(key) => key,
            None => {
                return Err(ConfigError::MissingKey);
            },
        };
        let port: u16 = match &vars.port {
            Some(text) => match parse_u16(text.as_str()) {
                Some(port) => port,
                None => 443,
            },
            None => 443,
        };
        let enable_h2 = env_bool(&vars.enable_h2, true);
        let enable_h3 = env_bool(&vars.enable_h3, true);
        let enable_websocket = env_bool(&vars.enable_websocket, true);
        let initial_mode = match &vars.mode {
            Some(text) => match LoadBalancingMode::from_str(text.as_str()) {
                Ok(mode) => mode,
                Err(message) => {
                    return Err(ConfigError::UnsupportedMode(message));
                },
            },
            None => LoadBalancingMode::LeastConn,
        };
        Ok(
            ProxyConfig {
                cert_pem_base64,
                key_pem_base64,
                port,
                enable_h2,
                enable_h3,
                enable_websocket,
                initial_mode,
            },
        )
    }
}

} // verus!
