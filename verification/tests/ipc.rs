use voice_cmd::ipc::{default_socket_path_in, response_text, Request, FALLBACK_SOCKET_PATH};

#[test]
fn bare_commands_ignore_case_and_surrounding_space() {
    assert_eq!(Request::parse_legacy("toggle"), Some(Request::Toggle));
    assert_eq!(Request::parse_legacy("  START \n"), Some(Request::Start));
    assert_eq!(Request::parse_legacy("Stop"), Some(Request::Stop));
    assert_eq!(Request::parse_legacy("status"), Some(Request::Status));
    assert_eq!(Request::parse_legacy("SHUTDOWN"), Some(Request::Shutdown));
    assert_eq!(Request::parse_legacy("reload"), Some(Request::Reload));
    assert_eq!(Request::parse_legacy("toggle now"), None);
    assert_eq!(Request::parse_legacy(""), None);
}

#[test]
fn history_limits() {
    assert_eq!(Request::parse_legacy("HISTORY"), Some(Request::History { limit: 20 }));
    assert_eq!(Request::parse_legacy("HISTORY 5"), Some(Request::History { limit: 5 }));
    assert_eq!(Request::parse_legacy("HISTORY 0"), Some(Request::History { limit: 1 }));
    assert_eq!(Request::parse_legacy("HISTORY +7 more"), Some(Request::History { limit: 7 }));
    assert_eq!(Request::parse_legacy("HISTORY five"), Some(Request::History { limit: 20 }));
    assert_eq!(Request::parse_legacy("HISTORYX"), Some(Request::History { limit: 20 }));
    assert_eq!(Request::parse_legacy("history 3"), None);
}

#[test]
fn text_requests_keep_their_text() {
    assert_eq!(
        Request::parse_legacy("TEXT hello  world"),
        Some(Request::SendText { text: "hello  world".to_string() })
    );
    assert_eq!(Request::parse_legacy("TEXT  x "), Some(Request::SendText { text: " x".to_string() }));
    assert_eq!(Request::parse_legacy("TEXT"), None);
}

#[test]
fn requests_encode_as_protocol_lines() {
    assert_eq!(Request::Toggle.to_legacy_command(), "TOGGLE");
    assert_eq!(Request::Reload.to_legacy_command(), "RELOAD");
    assert_eq!(Request::History { limit: 42 }.to_legacy_command(), "HISTORY 42");
    assert_eq!(Request::SendText { text: "hi".to_string() }.to_legacy_command(), "TEXT hi");
}

#[test]
fn requests_round_trip_through_their_lines() {
    let all = vec![
        Request::Toggle,
        Request::Start,
        Request::Stop,
        Request::Status,
        Request::Shutdown,
        Request::Reload,
        Request::History { limit: 1 },
        Request::History { limit: usize::MAX },
        Request::SendText { text: "a b\tc".to_string() },
    ];
    for r in all {
        assert_eq!(Request::parse_legacy(&r.to_legacy_command()), Some(r));
    }
}

#[test]
fn socket_paths() {
    assert_eq!(default_socket_path_in(Some("/run/user/1000")), "/run/user/1000/voice-cmd.sock");
    assert_eq!(default_socket_path_in(None), FALLBACK_SOCKET_PATH);
    assert_eq!(FALLBACK_SOCKET_PATH, "/tmp/voice-cmd.sock");
    assert_eq!(response_text("  OK recording=true\n"), "OK recording=true");
}
