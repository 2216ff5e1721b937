use servers::error::ServerError;
use servers::server::client::{Client, ClientStream, Outgoing, MAX_PACKET_LEN};
use servers::server::wire::{decode_unit, frame_line, strip};
use servers::commands::builtin_manager;
use tungstenite::Message;

fn tcp_client() -> Client {
    Client::new_tcp(3, builtin_manager().into())
}

fn ws_client() -> Client {
    Client::new_websocket(4, builtin_manager().into())
}

#[test]
fn strip_takes_line_ends_from_the_end_only() {
    assert_eq!(strip("hello\n".to_string()), "hello");
    assert_eq!(strip("hello\r\n".to_string()), "hello");
    assert_eq!(strip("hello\n\r\n\r".to_string()), "hello");
    assert_eq!(strip("hel\nlo".to_string()), "hel\nlo");
    assert_eq!(strip("\nhello".to_string()), "\nhello");
    assert_eq!(strip("hello ".to_string()), "hello ");
    assert_eq!(strip("\r\n".to_string()), "");
    assert_eq!(strip(String::new()), "");
}

#[test]
fn decode_unit_reads_utf8_and_strips() {
    assert_eq!(decode_unit(b"/help\r\n".to_vec()), Ok("/help".to_string()));
    assert_eq!(decode_unit("zażółć\n".as_bytes().to_vec()), Ok("zażółć".to_string()));
    assert_eq!(decode_unit(Vec::new()), Ok(String::new()));
}

#[test]
fn decode_unit_refuses_invalid_utf8() {
    assert_eq!(decode_unit(vec![0x68, 0x69, 0xff]), Err(ServerError::Decode));
    assert_eq!(decode_unit(vec![0xc3]), Err(ServerError::Decode));
    assert_eq!(decode_unit(vec![0xed, 0xa0, 0x80]), Err(ServerError::Decode));
}

#[test]
fn frame_line_appends_the_terminator() {
    assert_eq!(frame_line("ok"), b"ok\n\r".to_vec());
    assert_eq!(frame_line(""), b"\n\r".to_vec());
    assert_eq!(frame_line("ż"), "ż\n\r".as_bytes().to_vec());
}

#[test]
fn read_is_the_same_on_both_transports() {
    for client in [tcp_client(), ws_client()] {
        assert_eq!(client.read(b"/id\n".to_vec()), Ok("/id".to_string()));
        assert_eq!(client.read(vec![0xff, 0xfe]), Err(ServerError::Decode));
    }
}

#[test]
fn send_on_tcp_gives_bytes_with_terminator() {
    assert_eq!(tcp_client().send("unknown command"), Outgoing::Bytes(b"unknown command\n\r".to_vec()));
}

#[test]
fn send_on_websocket_gives_one_text_message() {
    let out = ws_client().send("unknown command");
    assert_eq!(out, Outgoing::Message(Message::Text("unknown command".to_string())));
    match out {
        Outgoing::Message(message) => assert!(message.is_text()),
        Outgoing::Bytes(_) => panic!("a WebSocket client is sent messages"),
    }
}

#[test]
fn outgoing_into_bytes_gives_what_reaches_the_peer() {
    assert_eq!(tcp_client().send("a").into_bytes(), b"a\n\r".to_vec());
    assert_eq!(ws_client().send("a").into_bytes(), b"a".to_vec());
    assert_eq!(Outgoing::Message(Message::Binary(vec![1, 2, 3])).into_bytes(), vec![1, 2, 3]);
}

#[test]
fn send_then_read_round_trip() {
    let texts = ["hello", "", "two words", "trailing\n", "mixed\r\n\r", "in\nside", "żółw"];
    for text in texts {
        let expected = text.trim_end_matches(|c| c == '\n' || c == '\r').to_string();
        for (sender, reader) in [(tcp_client(), tcp_client()), (ws_client(), ws_client())] {
            let wire = sender.send(text).into_bytes();
            assert_eq!(reader.read(wire), Ok(expected.clone()), "text {text:?}");
        }
    }
}

#[test]
fn new_clients_know_id_and_transport() {
    let tcp = tcp_client();
    assert_eq!(tcp.id, 3);
    assert_eq!(tcp.stream, ClientStream::TCP);
    let ws = ws_client();
    assert_eq!(ws.id, 4);
    assert_eq!(ws.stream, ClientStream::WebSocket);
    assert_eq!(tcp.plugins_manager.commands.len(), 4);
    assert_eq!(tcp.map.len(), 0);
}

#[test]
fn max_packet_len_is_64_kib() {
    assert_eq!(MAX_PACKET_LEN, 65536);
}
