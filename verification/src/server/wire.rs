//! What travels between server and client: how a reply becomes bytes or a
//! WebSocket message, and how received bytes become a unit of input.

use tungstenite::Message;
use vstd::prelude::*;
use vstd::string::StrSliceExecFns;
use vstd::utf8::{decode_utf8, encode_utf8, valid_utf8};
use crate::error::ServerError;
use crate::text::append;

verus! {

/// The WebSocket message type of `tungstenite`, carried through as it is.
#[verifier::external_type_specification]
#[verifier::external_body]
pub struct ExMessage(tungstenite::Message);

/// The payload bytes that a WebSocket message holds: for a text message
/// the UTF-8 bytes of its text, for a binary message its data.
pub uninterp spec fn message_payload(message: Message) -> Seq<u8>;

/// Whether a WebSocket message is a text message.
pub uninterp spec fn message_is_text(message: Message) -> bool;

/// `tungstenite::Message::text`: the text message whose payload is the
/// UTF-8 encoding of `text`.
#[verifier::external_body]
pub(crate) fn text_message(text: String) -> (message: Message)
    ensures
        message_payload(message) == encode_utf8(text@),
        message_is_text(message),
{
    Message::text(text)
}

/// `tungstenite::Message::binary`: the binary message whose payload is
/// `data`.
#[verifier::external_body]
pub(crate) fn binary_message(data: Vec<u8>) -> (message: Message)
    ensures
        message_payload(message) == data@,
        !message_is_text(message),
{
    Message::binary(data)
}

/// `tungstenite::Message::into_data`: the payload of `message`.
#[verifier::external_body]
pub(crate) fn into_payload(message: Message) -> (data: Vec<u8>)
    ensures
        data@ == message_payload(message),
{
    message.into_data()
}

/// `String::from_utf8` of the standard library: the text that `bytes`
/// encode, or `None` when they are not valid UTF-8.
#[verifier::external_body]
pub(crate) fn from_utf8(bytes: Vec<u8>) -> (text: Option<String>)
    ensures
        text is Some <==> valid_utf8(bytes@),
        text is Some ==> text->0@ == decode_utf8(bytes@),
{
    String::from_utf8(bytes).ok()
}

/// The characters that end a line.
pub open spec fn is_line_end(c: char) -> bool {
    c == '\n' || c == '\r'
}

/// `s` without the line feeds and carriage returns at its end.
pub open spec fn strip_line_end(s: Seq<char>) -> Seq<char>
    decreases s.len(),
{
    if s.len() > 0 && is_line_end(s.last()) {
        strip_line_end(s.drop_last())
    } else {
        s
    }
}

/// What is put behind every reply on a TCP connection.
pub open spec fn line_terminator() -> Seq<char> {
    "\n\r"@
}

/// The unit of input that received bytes stand for.
pub open spec fn unit_of(raw: Seq<u8>) -> Option<Seq<char>> {
    if valid_utf8(raw) {
        Some(strip_line_end(decode_utf8(raw)))
    } else {
        None
    }
}

/// The stripped text is what is left of `s` when the longest run of line
/// ends is taken from its end.
pub proof fn lemma_strip_line_end(s: Seq<char>)
    ensures
        strip_line_end(s).len() <= s.len(),
        strip_line_end(s) == s.take(strip_line_end(s).len() as int),
        strip_line_end(s).len() > 0 ==> !is_line_end(strip_line_end(s).last()),
        forall|k: int| strip_line_end(s).len() <= k < s.len() ==> is_line_end(#[trigger] s[k]),
    decreases s.len(),
{
    if s.len() > 0 && is_line_end(s.last()) {
        let shorter = s.drop_last();
        lemma_strip_line_end(shorter);
        let kept = strip_line_end(shorter).len() as int;
        assert(shorter.take(kept) == s.take(kept));
        assert forall|k: int| strip_line_end(s).len() <= k < s.len() implies is_line_end(
            #[trigger] s[k],
        ) by {
            if k < s.len() - 1 {
                assert(s[k] == shorter[k]);
            }
        }
    } else {
        assert(s.take(s.len() as int) == s);
    }
}

/// Line ends put behind a text are stripped with those it had.
pub proof fn lemma_strip_appended(s: Seq<char>, tail: Seq<char>)
    requires
        forall|k: int| 0 <= k < tail.len() ==> is_line_end(#[trigger] tail[k]),
    ensures
        strip_line_end(s + tail) == strip_line_end(s),
    decreases tail.len(),
{
    if tail.len() == 0 {
        assert(s + tail == s);
    } else {
        let whole = s + tail;
        assert(whole.last() == tail.last());
        assert(whole.drop_last() == s + tail.drop_last());
        lemma_strip_appended(s, tail.drop_last());
    }
}

/// Takes the line feeds and carriage returns from the end of `text`.
pub fn strip(text: String) -> (stripped: String)
    ensures
        stripped@ == strip_line_end(text@),
{
    let mut stripped = text;
    let mut done = false;
    while !done
        invariant
            strip_line_end(stripped@) == strip_line_end(text@),
            done ==> strip_line_end(stripped@) == stripped@,
        decreases stripped@.len() + if done { 0int } else { 1int },
    {
        match stripped.pop() {
            None => {
                done = true;
            },
            Some(c) => {
                if c == '\n' || c == '\r' {
                } else {
                    stripped.push(c);
                    assert(stripped@.drop_last().push(c) == stripped@);
                    done = true;
                }
            },
        }
    }
    stripped
}

/// Turns received bytes into a unit of input: the bytes are decoded as
/// UTF-8 and the line ends at the end of the text are taken off. Bytes
/// that are not valid UTF-8 are a decode failure.
pub fn decode_unit(raw: Vec<u8>) -> (unit: Result<String, ServerError>)
    ensures
        match unit {
            Ok(text) => unit_of(raw@) == Some(text@),
            Err(e) => unit_of(raw@) is None && e is Decode,
        },
{
    match from_utf8(raw) {
        Some(text) => Ok(strip(text)),
        None => Err(ServerError::Decode),
    }
}

/// The bytes that carry `text` to a TCP client: its UTF-8 encoding with
/// the line terminator behind it.
pub fn frame_line(text: &str) -> (bytes: Vec<u8>)
    ensures
        bytes@ == encode_utf8(text@ + line_terminator()),
{
    let line = append(text, "\n\r");
    line.as_str().as_bytes_vec()
}

} // verus!
