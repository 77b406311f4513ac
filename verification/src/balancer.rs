//! The load-balancing modes and their names.

use crate::text::{ascii_lower, same_text, to_ascii_lowercase, trim, trimmed};
use vstd::prelude::*;
use vstd::string::*;

verus! {

/// How a pool picks the backend of the next request.
#[derive(Debug, Clone, Copy, PartialEq, Eq, Structural)]
pub enum LoadBalancingMode {
    /// The available backend with the fewest active connections.
    LeastConn,
    /// Round-robin over the available backends; a request waits while all of them are busy.
    Queue,
}

/// The canonical name of a mode.
pub open spec fn mode_name(mode: LoadBalancingMode) -> Seq<char> {
    match mode {
        LoadBalancingMode::LeastConn => "leastconn"@,
        LoadBalancingMode::Queue => "queue"@,
    }
}

/// The text under which a mode is looked up: trimmed, in ASCII lower case.
pub open spec fn normalized(value: Seq<char>) -> Seq<char> {
    ascii_lower(trimmed(value))
}

/// The mode that `value` names, in any ASCII case and with white space around it.
pub open spec fn mode_from_text(value: Seq<char>) -> Option<LoadBalancingMode> {
    let name = normalized(value);
    if name == "leastconn"@ || name == "least_conn"@ || name == "least"@ {
        Some(LoadBalancingMode::LeastConn)
    } else if name == "queue"@ || name == "queued"@ {
        Some(LoadBalancingMode::Queue)
    } else {
        None
    }
}

impl LoadBalancingMode {
    /// The canonical name of the mode.
    pub fn as_str(&self) -> (name: &'static str)
        ensures
            name@ == mode_name(*self),
    {
        match self {
            LoadBalancingMode::LeastConn => "leastconn",
            LoadBalancingMode::Queue => "queue",
        }
    }

    /// The mode that `value` names, or a message that says which name is not supported.
    pub fn from_str(value: &str) -> (r: Result<Self, String>)
        ensures
            match r {
                Ok(mode) => mode_from_text(value@) == Some(mode),
                Err(message) => mode_from_text(value@) is None && message@
                    == "unsupported load balancer: "@ + normalized(value@),
            },
    {
        let name = to_ascii_lowercase(trim(value));
        if same_text(&name, "leastconn") || same_text(&name, "least_conn") || same_text(
            &name,
            "least",
        ) {
            Ok(LoadBalancingMode::LeastConn)
        } else if same_text(&name, "queue") || same_text(&name, "queued") {
            Ok(LoadBalancingMode::Queue)
        } else {
            let message = "unsupported load balancer: ".to_owned();
            Err(message.concat(&name))
        }
    }
}

impl core::str::FromStr for LoadBalancingMode {
    type Err = String;

    /// The mode that `value` names, or a message that says which name is not supported.
    fn from_str(value: &str) -> (r: Result<Self, String>)
        ensures
            match r {
                Ok(mode) => mode_from_text(value@) == Some(mode),
                Err(message) => mode_from_text(value@) is None && message@
                    == "unsupported load balancer: "@ + normalized(value@),
            },
    {
        LoadBalancingMode::from_str(value)
    }
}

/// The canonical name of a mode names that mode.
pub proof fn law_name_names_mode(mode: LoadBalancingMode)
    ensures
        mode_from_text(mode_name(mode)) == Some(mode),
{
    reveal_strlit("leastconn");
    reveal_strlit("least_conn");
    reveal_strlit("least");
    reveal_strlit("queue");
    let name = mode_name(mode);
    assert(trimmed(name) == name);
    assert(ascii_lower(name) =~= name);
    if mode == LoadBalancingMode::Queue {
        assert("queue"@.len() != "leastconn"@.len());
        assert("queue"@.len() != "least_conn"@.len());
        assert("queue"@[0] != "least"@[0]);
    }
}

} // verus!
