//! Transports and their failures.

use servatui::connection::{
    check_socket_path, connect_message, explain_connect_error, explain_io_error, io_message,
    FailureKind, RawConnection, TestEndpoint, Wire,
};
use servatui::json::{frame_of_line, line_of};

#[test]
fn empty_socket_path_gives_actionable_error() {
    let err = check_socket_path("", "app").unwrap_err();
    assert!(err.contains("socket path is empty"), "expected actionable message, got: {err}");
    assert!(!err.contains("Invalid argument"), "must not leak the raw EINVAL: {err}");
    assert!(err.contains("serve"), "should point at the fix: {err}");
    assert!(check_socket_path("/x/sock", "app").is_ok());
}

#[test]
fn a_missing_socket_is_explained() {
    let e = std::io::Error::from_raw_os_error(2);
    let err = explain_connect_error("/nonexistent-dir-xyz/s.sock", "app", &e);
    assert!(
        err.contains("no server") && err.contains("serve"),
        "expected actionable message, got: {err}"
    );
    assert!(!err.contains("No such file or directory"), "must not leak the raw ENOENT: {err}");
}

#[test]
fn a_stale_socket_is_explained() {
    let e = std::io::Error::from_raw_os_error(111);
    let err = explain_connect_error("/tmp/stale.sock", "app", &e);
    assert!(
        err.contains("stale") || err.contains("restart"),
        "expected actionable message, got: {err}"
    );
    assert!(!err.contains("Connection refused"), "must not leak the raw ECONNREFUSED: {err}");
}

#[test]
fn permission_denied_maps_to_hint() {
    let e = std::io::Error::from_raw_os_error(13);
    let msg = explain_connect_error("/x/sock", "app", &e);
    assert!(msg.contains("permission denied") && msg.contains("/x/sock"), "got: {msg}");
}

#[test]
fn unknown_connect_errno_falls_back_to_display() {
    let e = std::io::Error::from_raw_os_error(75);
    let msg = explain_connect_error("/x/sock", "app", &e);
    assert_eq!(msg, e.to_string());
}

#[test]
fn broken_pipe_on_send_means_server_gone() {
    let e = std::io::Error::from_raw_os_error(32);
    let msg = explain_io_error(&e);
    assert_eq!(msg, "server closed the connection");
}

#[test]
fn unknown_io_errno_falls_back_to_display() {
    let e = std::io::Error::from_raw_os_error(75);
    assert_eq!(explain_io_error(&e), e.to_string());
}

#[test]
fn messages_are_exact() {
    let own = || "own words".to_string();
    assert_eq!(
        connect_message("/s", "app", FailureKind::NotFound, own()),
        "no server is running at `/s` — start one with `app serve /s`"
    );
    assert_eq!(
        connect_message("/s", "app", FailureKind::ConnectionRefused, own()),
        "server at `/s` is not accepting connections — a crashed server leaves a stale socket \
         file behind; remove it (`rm /s`) and restart"
    );
    assert_eq!(
        connect_message("/s", "app", FailureKind::PermissionDenied, own()),
        "permission denied connecting to `/s`"
    );
    assert_eq!(connect_message("/s", "app", FailureKind::BrokenPipe, own()), "own words");
    assert_eq!(io_message(FailureKind::ConnectionReset, own()), "server closed the connection");
    assert_eq!(io_message(FailureKind::ConnectionAborted, own()), "server closed the connection");
    assert_eq!(io_message(FailureKind::NotFound, own()), "own words");
    assert_eq!(
        check_socket_path("", "app").unwrap_err(),
        "socket path is empty (start a server with `app serve <socket>`)"
    );
}

#[test]
fn an_endpoint_hands_out_what_came_in() {
    let mut ep = TestEndpoint::new(vec![b"one".to_vec(), b"two".to_vec()]);
    assert_eq!(ep.recv_bytes().unwrap(), b"one".to_vec());
    ep.send_bytes(&b"reply".to_vec()).unwrap();
    assert_eq!(ep.recv_bytes().unwrap(), b"two".to_vec());
    assert_eq!(ep.recv_bytes().unwrap_err(), "no data");
    assert_eq!(ep.outgoing.len(), 1);
    assert_eq!(ep.outgoing[0], b"reply".to_vec());
}

#[test]
fn frames_in_json_read_back() {
    let name = "a \"quoted\"\nname é";
    let frame = <Vec<u8> as Wire>::command(name);
    assert_eq!(frame, serde_json::to_vec(name).unwrap());
    assert_eq!(frame.read_command().unwrap(), name);
    assert_eq!(line_of(&frame).read_command().unwrap(), name);

    let failed = <Vec<u8> as Wire>::error_frame("boom \\ boom");
    assert_eq!(failed, br#"{"__error__":"boom \\ boom"}"#.to_vec());
    assert_eq!(failed.error_text(), Some("boom \\ boom".to_string()));
    assert_eq!(line_of(&failed).error_text(), Some("boom \\ boom".to_string()));

    let end = <Vec<u8> as Wire>::sentinel();
    assert_eq!(end, b"null".to_vec());
    assert!(end.read_sentinel().is_ok());
    assert!(line_of(&end).read_sentinel().is_ok());
}

#[test]
fn other_frames_are_not_taken_for_these() {
    let other = br#"{"text":"x"}"#.to_vec();
    assert_eq!(other.error_text(), None);
    assert!(other.read_sentinel().is_err());
    assert!(other.read_command().is_err());
    assert_eq!(br#"{"__error__":7}"#.to_vec().error_text(), None);
    assert!(vec![0xffu8, 0xfe].read_command().is_err());
    assert!(<Vec<u8> as Wire>::empty().is_empty());
    assert!(<Vec<u8> as Wire>::empty().read_sentinel().is_err());
}

#[test]
fn a_frame_is_a_line() {
    assert_eq!(line_of(&b"null".to_vec()), b"null\n".to_vec());
    assert_eq!(frame_of_line(b"null\n".to_vec()).unwrap(), b"null\n".to_vec());
    assert_eq!(frame_of_line(vec![]).unwrap_err(), "connection closed");
}
