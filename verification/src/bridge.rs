//! The relay between a WebSocket front end and the TCP listener.
//!
//! A WebSocket connection that comes in through the bridge is paired with
//! a TCP connection to the server's own listener, and what arrives on one
//! side is passed on to the other as it is: a chunk read from TCP becomes
//! the payload of one binary message, and the payload of a WebSocket
//! message becomes the bytes written to TCP. To the server behind it the
//! client looks like any TCP client.

use tungstenite::Message;
use vstd::prelude::*;
use crate::server::wire::{binary_message, into_payload, message_is_text, message_payload};
use crate::text::append;

verus! {

/// The address at which the bridge reaches the TCP listener on `tcp_port`.
pub open spec fn backend_address_spec(tcp_port: Seq<char>) -> Seq<char> {
    "localhost:"@ + tcp_port
}

/// The address at which the bridge reaches the TCP listener on `tcp_port`.
pub fn backend_address(tcp_port: &str) -> (address: String)
    ensures
        address@ == backend_address_spec(tcp_port@),
{
    append("localhost:", tcp_port)
}

/// Passes on what a read from TCP delivered. A chunk of bytes becomes one
/// binary message with these bytes as its payload. An empty chunk means
/// that the stream has ended: nothing is passed on and this direction of
/// the relay stops.
pub fn tcp_to_ws(chunk: Vec<u8>) -> (forward: Option<Message>)
    ensures
        chunk@.len() == 0 <==> forward is None,
        forward is Some ==> message_payload(forward->0) == chunk@ && !message_is_text(forward->0),
{
    if chunk.len() == 0 {
        None
    } else {
        Some(binary_message(chunk))
    }
}

/// Passes on what the WebSocket delivered. The payload of a message
/// becomes the bytes to write to TCP, unchanged. No message means that the
/// stream has ended: nothing is passed on and this direction of the relay
/// stops.
pub fn ws_to_tcp(message: Option<Message>) -> (forward: Option<Vec<u8>>)
    ensures
        message is None <==> forward is None,
        message is Some ==> forward->0@ == message_payload(message->0),
{
    match message {
        Some(message) => Some(into_payload(message)),
        None => None,
    }
}

} // verus!
