//! The failures the server knows, and what becomes of each.

use vstd::prelude::*;
use crate::server::client::ClientStream;
use crate::text::{append, contains, contains_spec};

verus! {

/// How far a failure reaches.
#[derive(Debug, Clone, Copy, PartialEq, Eq, Structural)]
pub enum Reach {
    /// The server does not start.
    Startup,
    /// The connection ends; other connections and the server go on.
    Connection,
    /// The client is told and its connection goes on.
    Reported,
}

/// A failure, by where it arose.
#[derive(Debug, PartialEq, Eq)]
pub enum ServerError {
    /// A plugin library could not be read, opened or bound.
    Load(String),
    /// Reading from or writing to a client failed, or the peer went away.
    Transport(String),
    /// A client sent bytes that are not UTF-8.
    Decode,
    /// A command returned an error.
    Command(String),
    /// An event returned an error.
    Event(String),
}

/// The text in front of every failure that a client is told about.
pub open spec fn report_prefix() -> Seq<char> {
    "error: "@
}

/// The line that tells a client about a failure with the given message.
pub open spec fn report_spec(message: Seq<char>) -> Seq<char> {
    report_prefix() + message
}

/// The line `"error: <message>"`, as a client is sent it when a command or
/// an event has failed.
pub fn report(message: &str) -> (line: String)
    ensures
        line@ == report_spec(message@),
{
    append("error: ", message)
}

/// The words by which the system reports a write to a peer that is gone.
pub open spec fn broken_pipe() -> Seq<char> {
    "Broken pipe"@
}

/// The words by which a WebSocket reports a peer that went away without a
/// closing handshake.
pub open spec fn reset_without_handshake() -> Seq<char> {
    "Connection reset without closing handshake"@
}

/// Whether a transport failure with the given message only means that the
/// client has disconnected: it speaks of a broken pipe or, on a WebSocket,
/// of a reset without closing handshake.
pub open spec fn is_disconnect_spec(stream: ClientStream, message: Seq<char>) -> bool {
    contains_spec(message, broken_pipe()) || (stream == ClientStream::WebSocket && contains_spec(
        message,
        reset_without_handshake(),
    ))
}

/// Whether a transport failure with the given message only means that the
/// client has disconnected, so that it is no fault worth an error entry in
/// the log.
pub fn is_disconnect(stream: ClientStream, message: &str) -> (gone: bool)
    ensures
        gone == is_disconnect_spec(stream, message@),
{
    if contains(message, "Broken pipe") {
        return true;
    }
    match stream {
        ClientStream::WebSocket => contains(message, "Connection reset without closing handshake"),
        ClientStream::TCP => false,
    }
}

impl ServerError {
    /// How far this failure reaches: a load failure stops the start, a
    /// transport or decode failure ends its connection, and a failed
    /// command or event is reported to the client.
    pub open spec fn reach_spec(&self) -> Reach {
        match self {
            ServerError::Load(_) => Reach::Startup,
            ServerError::Transport(_) => Reach::Connection,
            ServerError::Decode => Reach::Connection,
            ServerError::Command(_) => Reach::Reported,
            ServerError::Event(_) => Reach::Reported,
        }
    }

    /// How far this failure reaches.
    pub fn reach(&self) -> (reach: Reach)
        ensures
            reach == self.reach_spec(),
    {
        match self {
            ServerError::Load(_) => Reach::Startup,
            ServerError::Transport(_) => Reach::Connection,
            ServerError::Decode => Reach::Connection,
            ServerError::Command(_) => Reach::Reported,
            ServerError::Event(_) => Reach::Reported,
        }
    }

    /// The line sent to the client for this failure: `"error: <message>"`
    /// for a failed command or event, and nothing for every other failure.
    pub fn reply(&self) -> (line: Option<String>)
        ensures
            match self {
                ServerError::Command(message) => line is Some && line->0@ == report_spec(
                    message@,
                ),
                ServerError::Event(message) => line is Some && line->0@ == report_spec(message@),
                _ => line is None,
            },
    {
        match self {
            ServerError::Command(message) => Some(report(message.as_str())),
            ServerError::Event(message) => Some(report(message.as_str())),
            _ => None,
        }
    }
}

} // verus!
