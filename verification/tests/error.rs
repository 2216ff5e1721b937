use servers::error::{is_disconnect, report, Reach, ServerError};
use servers::server::client::ClientStream;

#[test]
fn report_puts_error_in_front() {
    assert_eq!(report("boom"), "error: boom");
    assert_eq!(report(""), "error: ");
}

#[test]
fn broken_pipe_means_disconnect_on_both_transports() {
    for stream in [ClientStream::TCP, ClientStream::WebSocket] {
        assert!(is_disconnect(stream, "Broken pipe (os error 32)"));
        assert!(is_disconnect(stream, "IO error: Broken pipe"));
        assert!(!is_disconnect(stream, "Connection refused"));
        assert!(!is_disconnect(stream, "broken pipe"));
        assert!(!is_disconnect(stream, ""));
    }
}

#[test]
fn reset_without_handshake_means_disconnect_on_websocket_only() {
    let message = "WebSocket protocol error: Connection reset without closing handshake";
    assert!(is_disconnect(ClientStream::WebSocket, message));
    assert!(!is_disconnect(ClientStream::TCP, message));
}

#[test]
fn each_failure_reaches_as_far_as_it_should() {
    assert_eq!(ServerError::Load("no such file".to_string()).reach(), Reach::Startup);
    assert_eq!(ServerError::Transport("reset".to_string()).reach(), Reach::Connection);
    assert_eq!(ServerError::Decode.reach(), Reach::Connection);
    assert_eq!(ServerError::Command("bad".to_string()).reach(), Reach::Reported);
    assert_eq!(ServerError::Event("bad".to_string()).reach(), Reach::Reported);
}

#[test]
fn only_command_and_event_failures_are_told_to_the_client() {
    assert_eq!(ServerError::Command("bad".to_string()).reply(), Some("error: bad".to_string()));
    assert_eq!(ServerError::Event("worse".to_string()).reply(), Some("error: worse".to_string()));
    assert_eq!(ServerError::Load("x".to_string()).reply(), None);
    assert_eq!(ServerError::Transport("x".to_string()).reply(), None);
    assert_eq!(ServerError::Decode.reply(), None);
}
