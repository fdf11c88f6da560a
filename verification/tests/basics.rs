use voice_cmd::errors::{format_error, ErrorCode};
use voice_cmd::logging::{log_line, log_path_in};
use voice_cmd::paths::{file_name, join, parent, path_eq};
use voice_cmd::text::{trim_str, str_equal};

#[test]
fn error_codes_and_their_text() {
    assert_eq!(ErrorCode::Config.as_str(), "CONFIG");
    assert_eq!(ErrorCode::Internal.as_str(), "INTERNAL");
    assert_eq!(format_error(ErrorCode::Overlay, "no overlay"), "OVERLAY:no overlay");
    assert_eq!(format_error(ErrorCode::Tts, ""), "TTS:");
}

#[test]
fn log_files_and_lines() {
    assert_eq!(log_path_in(Some("/s"), "daemon.log", "/tmp/voice-cmd-daemon.log"), "/s/daemon.log");
    assert_eq!(log_path_in(None, "daemon.log", "/tmp/voice-cmd-daemon.log"), "/tmp/voice-cmd-daemon.log");
    assert_eq!(log_line(1700000000, "spawn start"), "[1700000000] spawn start");
    assert_eq!(log_line(0, ""), "[0] ");
    assert!(voice_cmd::logging::daemon_log_path().ends_with("daemon.log"));
    assert!(voice_cmd::logging::overlay_log_path().ends_with("overlay.log"));
    assert!(voice_cmd::logging::overlay_launch_log_path().ends_with("overlay-launch.log"));
}

#[test]
fn path_helpers() {
    assert_eq!(join("/a", "b"), "/a/b");
    assert_eq!(join("/a/", "b"), "/a/b");
    assert_eq!(join("", "b"), "b");
    assert_eq!(join("/a", "/abs"), "/abs");
    assert_eq!(parent("/opt/bin/v"), Some("/opt/bin".to_string()));
    assert_eq!(parent("/"), None);
    assert_eq!(file_name("/opt/bin/v"), Some("v".to_string()));
    assert_eq!(file_name("/opt/.."), None);
    assert!(path_eq("/a//b", "/a/b"));
    assert!(!path_eq("/a/b", "/a/c"));
}

#[test]
fn text_helpers() {
    assert_eq!(trim_str("\u{3000} x y \n"), "x y");
    assert!(str_equal("abc", "abc"));
    assert!(!str_equal("abc", "abd"));
}
