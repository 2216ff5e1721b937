use servers::bridge::{backend_address, tcp_to_ws, ws_to_tcp};
use servers::commands::builtin_manager;
use servers::server::client::{Client, Outgoing};
use tungstenite::Message;

#[test]
fn backend_address_is_localhost_and_port() {
    assert_eq!(backend_address("9999"), "localhost:9999");
    assert_eq!(backend_address("0"), "localhost:0");
}

#[test]
fn tcp_chunk_becomes_one_binary_message() {
    assert_eq!(tcp_to_ws(vec![104, 105, 10, 13]), Some(Message::Binary(vec![104, 105, 10, 13])));
    assert_eq!(tcp_to_ws(vec![0xff]), Some(Message::Binary(vec![0xff])));
}

#[test]
fn tcp_stream_end_stops_the_relay() {
    assert_eq!(tcp_to_ws(Vec::new()), None);
}

#[test]
fn websocket_payload_becomes_tcp_bytes() {
    assert_eq!(ws_to_tcp(Some(Message::Text("hello".to_string()))), Some(b"hello".to_vec()));
    assert_eq!(ws_to_tcp(Some(Message::Binary(vec![1, 2, 255]))), Some(vec![1, 2, 255]));
    assert_eq!(ws_to_tcp(Some(Message::Ping(vec![7]))), Some(vec![7]));
    assert_eq!(ws_to_tcp(Some(Message::Close(None))), Some(Vec::new()));
}

#[test]
fn websocket_stream_end_stops_the_relay() {
    assert_eq!(ws_to_tcp(None), None);
}

#[test]
fn relay_is_transparent_in_both_directions() {
    for chunk in [vec![1u8], b"/help\n".to_vec(), vec![0, 255, 128, 10]] {
        let message = tcp_to_ws(chunk.clone()).unwrap();
        assert!(message.is_binary());
        assert_eq!(ws_to_tcp(Some(message)), Some(chunk));
    }
}

#[test]
fn hello_through_the_bridge_and_a_reply_back() {
    // The WebSocket client sends the text "hello"; the relay writes its payload to TCP.
    let to_backend = ws_to_tcp(Some(Message::Text("hello".to_string()))).unwrap();
    // The dispatcher behind the bridge sees an ordinary TCP client.
    let backend_client = Client::new_tcp(0, builtin_manager().into());
    assert_eq!(backend_client.read(to_backend), Ok("hello".to_string()));
    // Its reply travels back as one message that holds the reply.
    let reply = match backend_client.send("unknown command") {
        Outgoing::Bytes(bytes) => bytes,
        Outgoing::Message(_) => panic!("a TCP client is sent bytes"),
    };
    let message = tcp_to_ws(reply).unwrap();
    let payload = message.into_data();
    assert_eq!(String::from_utf8(payload).unwrap().trim_end(), "unknown command");
}
