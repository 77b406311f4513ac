//! The backends that requests are forwarded to.

use crate::text::same_text;
use crate::urls::{is_web_scheme, BackendUrl};
use vstd::prelude::*;

verus! {

/// The protocol that a backend speaks.
#[derive(Debug, Clone, Copy, PartialEq, Eq, Structural)]
pub enum BackendScheme {
    Http,
    Https,
    Ws,
    Wss,
}

/// The protocol with the given name.
pub open spec fn scheme_named(name: Seq<char>) -> Option<BackendScheme> {
    if name == "http"@ {
        Some(BackendScheme::Http)
    } else if name == "https"@ {
        Some(BackendScheme::Https)
    } else if name == "ws"@ {
        Some(BackendScheme::Ws)
    } else if name == "wss"@ {
        Some(BackendScheme::Wss)
    } else {
        None
    }
}

impl BackendScheme {
    /// The protocol with the given name, if it is a supported one.
    pub fn from_name(name: &str) -> (scheme: Option<Self>)
        ensures
            scheme == scheme_named(name@),
            scheme is Some <==> is_web_scheme(name@),
    {
        if same_text(name, "http") {
            Some(BackendScheme::Http)
        } else if same_text(name, "https") {
            Some(BackendScheme::Https)
        } else if same_text(name, "ws") {
            Some(BackendScheme::Ws)
        } else if same_text(name, "wss") {
            Some(BackendScheme::Wss)
        } else {
            None
        }
    }

    /// The protocol that a URL asks for, if it is a supported one.
    pub fn from_url(url: &BackendUrl) -> (scheme: Option<Self>)
        ensures
            scheme == scheme_named(url@.scheme),
            scheme is Some <==> is_web_scheme(url@.scheme),
    {
        BackendScheme::from_name(url.scheme())
    }

    /// Whether plain requests are forwarded over the protocol, and not WebSocket connections.
    pub open spec fn spec_is_http(self) -> bool {
        self is Http || self is Https
    }

    /// Whether plain requests are forwarded over the protocol, and not WebSocket connections.
    #[verifier::when_used_as_spec(spec_is_http)]
    pub fn is_http(self) -> (http: bool)
        ensures
            http == self.spec_is_http(),
    {
        matches!(self, BackendScheme::Http | BackendScheme::Https)
    }
}

/// A backend, as it is registered.
#[derive(Debug)]
pub struct Backend {
    pub id: String,
    pub url: BackendUrl,
    pub scheme: BackendScheme,
    /// How many connections the backend takes at a time, where that is limited.
    pub max_connections: Option<usize>,
}

impl Clone for Backend {
    fn clone(&self) -> (copy: Self)
        ensures
            copy == *self,
    {
        Backend {
            id: self.id.clone(),
            url: self.url.clone(),
            scheme: self.scheme,
            max_connections: self.max_connections,
        }
    }
}

/// A backend as it is reported: with the number of its active connections.
#[derive(Debug)]
pub struct BackendView {
    pub id: String,
    pub url: BackendUrl,
    pub scheme: BackendScheme,
    pub max_connections: Option<usize>,
    pub active_connections: usize,
}

/// The report on `backend` with `active` connections.
pub open spec fn view_of(backend: Backend, active: usize) -> BackendView {
    BackendView {
        id: backend.id,
        url: backend.url,
        scheme: backend.scheme,
        max_connections: backend.max_connections,
        active_connections: active,
    }
}

impl Clone for BackendView {
    fn clone(&self) -> (copy: Self)
        ensures
            copy == *self,
    {
        BackendView {
            id: self.id.clone(),
            url: self.url.clone(),
            scheme: self.scheme,
            max_connections: self.max_connections,
            active_connections: self.active_connections,
        }
    }
}

} // verus!
