//! One connected client: its id, the kind of transport it came in on and
//! the manager it shares with all other connections.

use std::sync::Arc;
use tungstenite::Message;
use vstd::prelude::*;
use vstd::utf8::{encode_utf8, encode_utf8_decode_utf8, encode_utf8_valid_utf8};
use crate::error::ServerError;
use crate::plugins::manager::PluginsManager;
use crate::server::map::{ClientMap, ClientMapValue, ValueView};
use crate::server::wire::{
    decode_unit,
    frame_line,
    into_payload,
    is_line_end,
    lemma_strip_appended,
    lemma_strip_line_end,
    line_terminator,
    message_is_text,
    message_payload,
    strip_line_end,
    text_message,
    unit_of,
};

verus! {

/// The most bytes that one read takes from a transport.
pub const MAX_PACKET_LEN: usize = 65536;

/// The kind of transport that a client is connected through.
#[derive(Debug, Clone, Copy, PartialEq, Eq, Structural)]
pub enum ClientStream {
    /// A raw TCP byte stream.
    TCP,
    /// A WebSocket connection, which carries whole messages.
    WebSocket,
}

/// A reply, made ready for the transport that will carry it.
#[derive(Debug, PartialEq, Eq)]
pub enum Outgoing {
    /// Bytes to write to a TCP stream.
    Bytes(Vec<u8>),
    /// One message to send over a WebSocket.
    Message(Message),
}

impl Outgoing {
    /// The bytes that reach the peer.
    pub open spec fn payload(self) -> Seq<u8> {
        match self {
            Outgoing::Bytes(bytes) => bytes@,
            Outgoing::Message(message) => message_payload(message),
        }
    }

    /// The bytes that reach the peer.
    pub fn into_bytes(self) -> (bytes: Vec<u8>)
        ensures
            bytes@ == self.payload(),
    {
        match self {
            Outgoing::Bytes(bytes) => bytes,
            Outgoing::Message(message) => into_payload(message),
        }
    }
}

/// The bytes that carry `text` over a transport of kind `stream`: its
/// UTF-8 encoding, on TCP with the line terminator behind it.
pub open spec fn wire_payload(stream: ClientStream, text: Seq<char>) -> Seq<u8> {
    match stream {
        ClientStream::TCP => encode_utf8(text + line_terminator()),
        ClientStream::WebSocket => encode_utf8(text),
    }
}

/// What one side sends, the other side reads, but for the line ends at the
/// end of the text: those are taken off on the way. What is read is the
/// front of what was sent, it ends in no line end, and everything that was
/// taken off is a line end.
pub proof fn law_send_then_read(stream: ClientStream, text: Seq<char>)
    ensures
        unit_of(wire_payload(stream, text)) == Some(strip_line_end(text)),
        strip_line_end(text).len() <= text.len(),
        strip_line_end(text) == text.take(strip_line_end(text).len() as int),
        strip_line_end(text).len() > 0 ==> !is_line_end(strip_line_end(text).last()),
        forall|k: int|
            strip_line_end(text).len() <= k < text.len() ==> is_line_end(#[trigger] text[k]),
{
    lemma_strip_line_end(text);
    match stream {
        ClientStream::TCP => {
            let line = text + line_terminator();
            encode_utf8_valid_utf8(line);
            encode_utf8_decode_utf8(line);
            reveal_strlit("\n\r");
            lemma_strip_appended(text, line_terminator());
        },
        ClientStream::WebSocket => {
            encode_utf8_valid_utf8(text);
            encode_utf8_decode_utf8(text);
        },
    }
}

/// Makes `text` ready for a transport of kind `stream`: on TCP the bytes
/// of the text with the line terminator behind them, on WebSocket one text
/// message that holds the text as it is.
pub fn frame(stream: ClientStream, text: &str) -> (out: Outgoing)
    ensures
        out.payload() == wire_payload(stream, text@),
        stream == ClientStream::TCP <==> out is Bytes,
        stream == ClientStream::WebSocket <==> out is Message,
        out is Message ==> message_is_text(out->Message_0),
{
    match stream {
        ClientStream::TCP => Outgoing::Bytes(frame_line(text)),
        ClientStream::WebSocket => Outgoing::Message(text_message(text.to_owned())),
    }
}

/// The state of one connection.
pub struct Client {
    /// Id of the client, unique among all clients the server ever had.
    pub id: usize,
    /// The kind of transport the client is connected through.
    pub stream: ClientStream,
    /// State that extensions keep for this client.
    pub map: ClientMap,
    /// Everything that was loaded at startup.
    pub plugins_manager: Arc<PluginsManager>,
}

impl Client {
    /// The state of the TCP client with the given id.
    pub fn new_tcp(id: usize, plugins_manager: Arc<PluginsManager>) -> (client: Client)
        ensures
            client.id == id,
            client.stream == ClientStream::TCP,
            client.map@ == Map::<Seq<char>, ValueView>::empty(),
            client.plugins_manager == plugins_manager,
    {
        Client { id, stream: ClientStream::TCP, map: ClientMap::new(), plugins_manager }
    }

    /// The state of the WebSocket client with the given id.
    pub fn new_websocket(id: usize, plugins_manager: Arc<PluginsManager>) -> (client: Client)
        ensures
            client.id == id,
            client.stream == ClientStream::WebSocket,
            client.map@ == Map::<Seq<char>, ValueView>::empty(),
            client.plugins_manager == plugins_manager,
    {
        Client { id, stream: ClientStream::WebSocket, map: ClientMap::new(), plugins_manager }
    }

    /// Turns what the transport delivered into a unit of input: `raw` is
    /// what one read took from the TCP stream, or the payload of one
    /// WebSocket message. The bytes are decoded as UTF-8 and the line ends
    /// at the end of the text are taken off. Bytes that are not valid UTF-8
    /// are a decode failure.
    pub fn read(&self, raw: Vec<u8>) -> (unit: Result<String, ServerError>)
        ensures
            match unit {
                Ok(text) => unit_of(raw@) == Some(text@),
                Err(e) => unit_of(raw@) is None && e is Decode,
            },
    {
        decode_unit(raw)
    }

    /// Makes `msg` ready for this client's transport: on TCP the bytes of
    /// its text with the line terminator behind them, on WebSocket one text
    /// message that holds the text as it is.
    pub fn send(&self, msg: &str) -> (out: Outgoing)
        ensures
            out.payload() == wire_payload(self.stream, msg@),
            self.stream == ClientStream::TCP <==> out is Bytes,
            self.stream == ClientStream::WebSocket <==> out is Message,
            out is Message ==> message_is_text(out->Message_0),
    {
        frame(self.stream, msg)
    }

    /// Puts `value` under `key` in the client's map and returns the value
    /// that was there before, if there was one.
    pub fn insert_key(&mut self, key: &str, value: ClientMapValue) -> (before: Option<
        ClientMapValue,
    >)
        ensures
            final(self).map@ == old(self).map@.insert(key@, value@),
            final(self).id == old(self).id,
            final(self).stream == old(self).stream,
            final(self).plugins_manager == old(self).plugins_manager,
            old(self).map@.contains_key(key@) ==> before is Some && before->0@ == old(
                self,
            ).map@[key@],
            !old(self).map@.contains_key(key@) ==> before is None,
    {
        self.map.insert(key, value)
    }

    /// A copy of the value under `key` in the client's map, if there is
    /// one.
    pub fn get_value(&self, key: &str) -> (value: Option<ClientMapValue>)
        ensures
            self.map@.contains_key(key@) ==> value is Some && value->0@ == self.map@[key@],
            !self.map@.contains_key(key@) ==> value is None,
    {
        self.map.get(key)
    }

    /// Takes `key` out of the client's map and returns the value that was
    /// under it, if there was one.
    pub fn delete_key(&mut self, key: &str) -> (before: Option<ClientMapValue>)
        ensures
            final(self).map@ == old(self).map@.remove(key@),
            final(self).id == old(self).id,
            final(self).stream == old(self).stream,
            final(self).plugins_manager == old(self).plugins_manager,
            old(self).map@.contains_key(key@) ==> before is Some && before->0@ == old(
                self,
            ).map@[key@],
            !old(self).map@.contains_key(key@) ==> before is None,
    {
        self.map.remove(key)
    }
}

} // verus!
