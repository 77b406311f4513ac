//! The management API: which request asks for what, and what it is answered.

use crate::backend::{scheme_named, view_of, Backend, BackendView};
use crate::balancer::{mode_from_text, mode_name, normalized, LoadBalancingMode};
use crate::state::{is_random_uuid, lists, refusal, ProxyState, StateView};
use crate::text::{same_text, starts_with};
use crate::urls::BackendUrl;
use vstd::prelude::*;
use vstd::string::*;

verus! {

/// Whether a request with the given path is one to the API, and not one to be forwarded.
pub fn is_api_path(path: &str) -> (r: bool)
    ensures
        r == "/api/"@.is_prefix_of(path@),
{
    starts_with(path, "/api/")
}

/// What a request to the API asks for.
#[derive(Debug, Clone, Copy, PartialEq, Eq, Structural)]
pub enum ApiRoute {
    Health,
    ListBackends,
    AddBackend,
    RemoveBackend,
    GetBalancer,
    SetBalancer,
    Unknown,
}

/// What a request with the given method and path asks for.
pub open spec fn route_of(method: Seq<char>, path: Seq<char>) -> ApiRoute {
    if method == "GET"@ && path == "/api/health"@ {
        ApiRoute::Health
    } else if method == "GET"@ && path == "/api/backends"@ {
        ApiRoute::ListBackends
    } else if method == "POST"@ && path == "/api/backends"@ {
        ApiRoute::AddBackend
    } else if method == "DELETE"@ && "/api/backends/"@.is_prefix_of(path) {
        ApiRoute::RemoveBackend
    } else if method == "GET"@ && path == "/api/balancer"@ {
        ApiRoute::GetBalancer
    } else if method == "PUT"@ && path == "/api/balancer"@ {
        ApiRoute::SetBalancer
    } else {
        ApiRoute::Unknown
    }
}

/// What a request with the given method and path asks for.
pub fn route_api(method: &str, path: &str) -> (route: ApiRoute)
    ensures
        route == route_of(method@, path@),
{
    if same_text(method, "GET") && same_text(path, "/api/health") {
        ApiRoute::Health
    } else if same_text(method, "GET") && same_text(path, "/api/backends") {
        ApiRoute::ListBackends
    } else if same_text(method, "POST") && same_text(path, "/api/backends") {
        ApiRoute::AddBackend
    } else if same_text(method, "DELETE") && starts_with(path, "/api/backends/") {
        ApiRoute::RemoveBackend
    } else if same_text(method, "GET") && same_text(path, "/api/balancer") {
        ApiRoute::GetBalancer
    } else if same_text(method, "PUT") && same_text(path, "/api/balancer") {
        ApiRoute::SetBalancer
    } else {
        ApiRoute::Unknown
    }
}

/// A request to add a backend.
#[derive(Debug)]
pub struct AddBackendRequest {
    pub url: BackendUrl,
    pub max_connections: Option<usize>,
}

/// A request to change the load-balancing mode.
#[derive(Debug)]
pub struct SetBalancerRequest {
    pub mode: String,
}

/// The body of a request to the API, read as its route asks for; or why it could not be read.
#[derive(Debug)]
pub enum ApiBody {
    Unread,
    AddBackend(Result<AddBackendRequest, String>),
    SetBalancer(Result<SetBalancerRequest, String>),
}

impl ApiBody {
    /// Whether the body was read as the route asks for.
    pub open spec fn suits(self, route: ApiRoute) -> bool {
        &&& route == ApiRoute::AddBackend ==> self is AddBackend
        &&& route == ApiRoute::SetBalancer ==> self is SetBalancer
    }
}

/// What a response of the API holds.
#[derive(Debug)]
pub enum ApiPayload {
    /// The proxy is up.
    Health,
    /// The mode, the backends for requests and those for WebSocket connections.
    Backends { mode: String, http: Vec<BackendView>, ws: Vec<BackendView> },
    /// A backend that was added or removed.
    Backend(BackendView),
    /// The mode.
    Balancer { mode: String },
    /// Why the request is refused.
    Error(String),
}

/// A response of the API.
#[derive(Debug)]
pub struct ApiResponse {
    pub status: u16,
    pub payload: ApiPayload,
}

impl ApiResponse {
    /// Whether the response refuses the request, with the given status and message.
    pub open spec fn refuses(self, status: u16, message: Seq<char>) -> bool {
        &&& self.status == status
        &&& self.payload is Error
        &&& self.payload->Error_0@ == message
    }

    /// Whether the response gives the load-balancing mode.
    pub open spec fn gives_mode(self, mode: LoadBalancingMode) -> bool {
        &&& self.status == 200
        &&& self.payload matches ApiPayload::Balancer { mode: name }
        &&& name@ == mode_name(mode)
    }
}

/// A response that refuses a request.
fn json_error(status: u16, message: String) -> (response: ApiResponse)
    ensures
        response.refuses(status, message@),
{
    ApiResponse { status, payload: ApiPayload::Error(message) }
}

/// The id that the path of a request to remove a backend gives: what follows `/api/backends/`.
pub open spec fn id_in_path(path: Seq<char>) -> Seq<char> {
    path.skip("/api/backends/"@.len() as int)
}

/// Whether the API answers a request to add a backend with `r`, and leaves the state `after`.
pub open spec fn answers_add(
    before: StateView,
    request: Result<AddBackendRequest, String>,
    r: ApiResponse,
    after: StateView,
) -> bool {
    match request {
        Err(message) => r.refuses(400, "invalid json: "@ + message@) && after == before,
        Ok(request) => match refusal(request.url, request.max_connections) {
            Some(message) => r.refuses(400, message) && after == before,
            None => {
                &&& r.status == 201
                &&& r.payload is Backend
                &&& scheme_named(request.url@.scheme) is Some
                &&& ({
                    let view = r.payload->Backend_0;
                    let backend = Backend {
                        id: view.id,
                        url: request.url,
                        scheme: scheme_named(request.url@.scheme)->0,
                        max_connections: request.max_connections,
                    };
                    &&& view == view_of(backend, 0)
                    &&& after == before.added(backend)
                })
            },
        },
    }
}

/// Whether the API answers a request to remove a backend with `r`, and leaves the state `after`.
pub open spec fn answers_remove(
    before: StateView,
    id: Seq<char>,
    r: ApiResponse,
    after: StateView,
) -> bool {
    if id.len() == 0 {
        r.refuses(400, "backend id is required"@) && after == before
    } else if before.knows(id) {
        &&& r.status == 200
        &&& r.payload is Backend
        &&& before.removes(id, r.payload->Backend_0, after)
    } else {
        r.refuses(404, "backend not found"@) && after == before
    }
}

/// Whether the API answers a request to change the mode with `r`, and leaves the state `after`.
pub open spec fn answers_set_balancer(
    before: StateView,
    request: Result<SetBalancerRequest, String>,
    r: ApiResponse,
    after: StateView,
) -> bool {
    match request {
        Err(message) => r.refuses(400, "invalid json: "@ + message@) && after == before,
        Ok(request) => match mode_from_text(request.mode@) {
            None => {
                &&& r.refuses(400, "unsupported load balancer: "@ + normalized(request.mode@))
                &&& after == before
            },
            Some(mode) => r.gives_mode(mode) && after == StateView { mode, ..before },
        },
    }
}

/// Whether the API answers a request with `r`, and leaves the state `after`.
pub open spec fn answers_api(
    before: StateView,
    method: Seq<char>,
    path: Seq<char>,
    body: ApiBody,
    r: ApiResponse,
    after: StateView,
) -> bool {
    match route_of(method, path) {
        ApiRoute::Health => r.status == 200 && r.payload is Health && after == before,
        ApiRoute::ListBackends => {
            &&& r.status == 200
            &&& after == before
            &&& r.payload matches ApiPayload::Backends { mode, http, ws }
            &&& mode@ == mode_name(before.mode)
            &&& lists(http@, before.http)
            &&& lists(ws@, before.ws)
        },
        ApiRoute::AddBackend => answers_add(before, body->AddBackend_0, r, after),
        ApiRoute::RemoveBackend => answers_remove(before, id_in_path(path), r, after),
        ApiRoute::GetBalancer => r.gives_mode(before.mode) && after == before,
        ApiRoute::SetBalancer => answers_set_balancer(before, body->SetBalancer_0, r, after),
        ApiRoute::Unknown => r.refuses(404, "unknown api endpoint"@) && after == before,
    }
}

/// Answers a request to add a backend, under the given id or else under a new random one.
fn add_backend(
    state: &mut ProxyState,
    request: Result<AddBackendRequest, String>,
    id: Option<String>,
) -> (r: ApiResponse)
    requires
        old(state)@.wf(),
    ensures
        answers_add(old(state)@, request, r, final(state)@),
        final(state)@.wf(),
        r.payload matches ApiPayload::Backend(view) ==> match id {
            Some(id) => view.id == id,
            None => is_random_uuid(view.id@),
        },
{
    let request = match request {
        Ok(request) => request,
        Err(message) => {
            return json_error(400, "invalid json: ".to_owned().concat(&message));
        },
    };
    let added = match id {
        Some(id) => state.add_backend_with_id(id, request.url, request.max_connections),
        None => state.add_backend(request.url, request.max_connections),
    };
    match added {
        Ok(view) => ApiResponse { status: 201, payload: ApiPayload::Backend(view) },
        Err(message) => json_error(400, message),
    }
}

/// Answers a request to remove the backend that the path gives.
fn remove_backend(state: &mut ProxyState, path: &str) -> (r: ApiResponse)
    requires
        old(state)@.wf(),
        "/api/backends/"@.is_prefix_of(path@),
    ensures
        answers_remove(old(state)@, id_in_path(path@), r, final(state)@),
        final(state)@.wf(),
{
    let id = path.substring_char("/api/backends/".unicode_len(), path.unicode_len());
    assert(id@ =~= id_in_path(path@));
    if id.is_empty() {
        return json_error(400, "backend id is required".to_owned());
    }
    match state.remove_backend(id) {
        Some(view) => ApiResponse { status: 200, payload: ApiPayload::Backend(view) },
        None => json_error(404, "backend not found".to_owned()),
    }
}

/// Answers a request to change the load-balancing mode.
fn set_balancer(state: &mut ProxyState, request: Result<SetBalancerRequest, String>) -> (r:
    ApiResponse)
    requires
        old(state)@.wf(),
    ensures
        answers_set_balancer(old(state)@, request, r, final(state)@),
        final(state)@.wf(),
{
    let request = match request {
        Ok(request) => request,
        Err(message) => {
            return json_error(400, "invalid json: ".to_owned().concat(&message));
        },
    };
    match LoadBalancingMode::from_str(request.mode.as_str()) {
        Ok(mode) => {
            state.set_mode(mode);
            ApiResponse {
                status: 200,
                payload: ApiPayload::Balancer { mode: mode.as_str().to_owned() },
            }
        },
        Err(message) => json_error(400, message),
    }
}

/// Answers a request to the API; a backend that it adds gets the given id, or else a new random
/// one.
fn dispatch(
    state: &mut ProxyState,
    method: &str,
    path: &str,
    body: ApiBody,
    id: Option<String>,
) -> (r: ApiResponse)
    requires
        old(state)@.wf(),
        body.suits(route_of(method@, path@)),
    ensures
        answers_api(old(state)@, method@, path@, body, r, final(state)@),
        final(state)@.wf(),
        route_of(method@, path@) == ApiRoute::AddBackend ==> (r.payload matches ApiPayload::Backend(
            view,
        ) ==> match id {
            Some(id) => view.id == id,
            None => is_random_uuid(view.id@),
        }),
{
    match (route_api(method, path), body) {
        (ApiRoute::Health, _) => ApiResponse { status: 200, payload: ApiPayload::Health },
        (ApiRoute::ListBackends, _) => {
            let (http, ws) = state.list_backends();
            let mode = state.mode().as_str().to_owned();
            ApiResponse { status: 200, payload: ApiPayload::Backends { mode, http, ws } }
        },
        (ApiRoute::AddBackend, ApiBody::AddBackend(request)) => add_backend(state, request, id),
        (ApiRoute::RemoveBackend, _) => remove_backend(state, path),
        (ApiRoute::GetBalancer, _) => ApiResponse {
            status: 200,
            payload: ApiPayload::Balancer { mode: state.mode().as_str().to_owned() },
        },
        (ApiRoute::SetBalancer, ApiBody::SetBalancer(request)) => set_balancer(state, request),
        _ => json_error(404, "unknown api endpoint".to_owned()),
    }
}

/// Answers a request to the API; a backend that it adds gets a new random id.
pub fn handle_api(state: &mut ProxyState, method: &str, path: &str, body: ApiBody) -> (r:
    ApiResponse)
    requires
        old(state)@.wf(),
        body.suits(route_of(method@, path@)),
    ensures
        answers_api(old(state)@, method@, path@, body, r, final(state)@),
        final(state)@.wf(),
        route_of(method@, path@) == ApiRoute::AddBackend ==> (r.payload matches ApiPayload::Backend(
            view,
        ) ==> is_random_uuid(view.id@)),
{
    dispatch(state, method, path, body, None)
}

/// Answers a request to the API; a backend that it adds gets the given id.
pub fn handle_api_with_id(
    state: &mut ProxyState,
    method: &str,
    path: &str,
    body: ApiBody,
    id: String,
) -> (r: ApiResponse)
    requires
        old(state)@.wf(),
        body.suits(route_of(method@, path@)),
    ensures
        answers_api(old(state)@, method@, path@, body, r, final(state)@),
        final(state)@.wf(),
        route_of(method@, path@) == ApiRoute::AddBackend ==> (r.payload matches ApiPayload::Backend(
            view,
        ) ==> view.id == id),
{
    dispatch(state, method, path, body, Some(id))
}

} // verus!
