//! Connection state of the desktop to its host.

use vstd::prelude::*;

verus! {

#[derive(Debug, Clone, PartialEq, Eq)]
pub enum ConnectionState {
    Disconnected,
    Connecting,
    /// Hello and ping succeeded. No session id yet.
    Ready,
    Connected { session_ids: Vec<String> },
}

/// The word the title bar shows for a connection state.
pub open spec fn status_text(c: ConnectionState) -> Seq<char> {
    match c {
        ConnectionState::Disconnected => "disconnected"@,
        ConnectionState::Connecting => "connecting"@,
        ConnectionState::Ready => "ready"@,
        ConnectionState::Connected { session_ids } => if session_ids@.len() == 0 {
            "ready"@
        } else {
            "connected"@
        },
    }
}

impl ConnectionState {
    /// Connected with at least one session.
    pub fn is_connected(&self) -> (r: bool)
        ensures
            r == (self matches ConnectionState::Connected { session_ids } && session_ids@.len() > 0),
    {
        match self {
            ConnectionState::Connected { session_ids } => session_ids.len() > 0,
            _ => false,
        }
    }

    pub fn session_count(&self) -> (n: usize)
        ensures
            n == (match self {
                ConnectionState::Connected { session_ids } => session_ids@.len(),
                _ => 0,
            }),
    {
        match self {
            ConnectionState::Connected { session_ids } => session_ids.len(),
            _ => 0,
        }
    }

    pub fn status_label(&self) -> (r: &'static str)
        ensures
            r@ == status_text(*self),
    {
        match self {
            ConnectionState::Disconnected => "disconnected",
            ConnectionState::Connecting => "connecting",
            ConnectionState::Ready => "ready",
            ConnectionState::Connected { session_ids } => if session_ids.len() == 0 {
                "ready"
            } else {
                "connected"
            },
        }
    }
}

} // verus!
