//! Window chrome state: the title and how the chrome is attached to a
//! Multiplexer server. The pane forest is kept by the layout engine.

use vstd::prelude::*;
use crate::connection::{status_text, ConnectionState};
use crate::text::{append_str, chars_of, string_of};

verus! {

/// Title of the primary Multiplexer window.
pub const DEFAULT_WINDOW_TITLE: &'static str = "Multiplexer";

/// OS-window chrome: title and connection.
#[derive(Debug, Clone, PartialEq, Eq)]
pub struct DesktopChrome {
    pub title: String,
    pub connection: ConnectionState,
}

impl DesktopChrome {
    /// The primary window's chrome, not yet connected.
    pub fn default_outlook() -> (c: Self)
        ensures
            c.title@ == DEFAULT_WINDOW_TITLE@,
            c.connection == ConnectionState::Disconnected,
    {
        DesktopChrome { title: DEFAULT_WINDOW_TITLE.to_owned(), connection: ConnectionState::Disconnected }
    }

    /// Hello-frame copy projected into the blank center of the shell.
    pub fn hello_frame_label(&self) -> (r: String)
        ensures
            r@ == "Hello, "@ + self.title@,
    {
        let mut v = chars_of("Hello, ");
        append_str(&mut v, self.title.as_str());
        string_of(&v)
    }

    /// Status-bar copy: title plus connection state.
    pub fn connection_label(&self) -> (r: String)
        ensures
            r@ == self.title@ + " · "@ + status_text(self.connection),
    {
        let mut v = chars_of(self.title.as_str());
        append_str(&mut v, " · ");
        append_str(&mut v, self.connection.status_label());
        string_of(&v)
    }

    pub fn mark_connecting(&mut self)
        ensures
            *final(self) == (DesktopChrome { connection: ConnectionState::Connecting, ..*old(self) }),
    {
        self.connection = ConnectionState::Connecting;
    }

    /// Connected with these sessions; ready (no session yet) when there are none.
    pub fn mark_connected(&mut self, session_ids: Vec<String>)
        ensures
            *final(self) == (DesktopChrome {
                connection: if session_ids@.len() == 0 {
                    ConnectionState::Ready
                } else {
                    ConnectionState::Connected { session_ids }
                },
                ..*old(self)
            }),
    {
        if session_ids.len() == 0 {
            self.connection = ConnectionState::Ready;
        } else {
            self.connection = ConnectionState::Connected { session_ids };
        }
    }

    pub fn mark_disconnected(&mut self)
        ensures
            *final(self) == (DesktopChrome { connection: ConnectionState::Disconnected, ..*old(self) }),
    {
        self.connection = ConnectionState::Disconnected;
    }
}

} // verus!
