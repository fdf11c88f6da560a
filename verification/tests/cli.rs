use voice_cmd::cli::{
    background_daemon_args, daemon_status_lines, device_list_lines, doctor_report, forked_daemon_args,
    model_status_lines, should_retry_toggle, toggle_failure_message, DoctorFacts, AUTOSTART_ATTEMPTS,
    AUTOSTART_RETRY_MS,
};
use voice_cmd::transcription::ModelStatus;

#[test]
fn child_process_arguments() {
    assert_eq!(forked_daemon_args(false, "/s.sock"), vec!["daemon", "--socket", "/s.sock"]);
    assert_eq!(forked_daemon_args(true, "/s.sock"), vec!["daemon", "--no-overlay", "--socket", "/s.sock"]);
    assert_eq!(background_daemon_args("/s"), vec!["daemon", "--fork", "--socket", "/s"]);
}

#[test]
fn autostart_retries() {
    assert_eq!(AUTOSTART_ATTEMPTS, 20);
    assert_eq!(AUTOSTART_RETRY_MS, 100);
    assert!(should_retry_toggle(0));
    assert!(should_retry_toggle(19));
    assert!(!should_retry_toggle(20));
    assert_eq!(toggle_failure_message("/s"), "failed to toggle after starting daemon at /s");
}

#[test]
fn report_lines() {
    assert_eq!(daemon_status_lines(Ok("OK recording=false")), vec!["running=true", "OK recording=false"]);
    assert_eq!(daemon_status_lines(Err("refused")), vec!["running=false", "error=refused"]);
    assert_eq!(device_list_lines(&vec![]), vec!["no input devices found"]);
    assert_eq!(
        device_list_lines(&vec!["a".to_string(), "b".to_string()]),
        vec!["1: a", "2: b"]
    );
    assert_eq!(
        model_status_lines("/m", ModelStatus { ready: false, fallback_ready: true }),
        vec!["model_path=/m", "ready=false", "fallback_ready=true (files found in parent dir)"]
    );
    assert_eq!(
        model_status_lines("/m", ModelStatus { ready: true, fallback_ready: false }),
        vec!["model_path=/m", "ready=true"]
    );
}

#[test]
fn doctor_lines() {
    let facts = DoctorFacts {
        config_path: "/c.toml".to_string(),
        socket_path: "/s.sock".to_string(),
        model_path: "/m".to_string(),
        model: ModelStatus { ready: true, fallback_ready: false },
        daemon_status: Some("OK recording=false".to_string()),
        output_command: "ydotool type {text}".to_string(),
        ydotool_in_path: false,
        input_device: None,
        devices: vec!["Mic".to_string(), "USB".to_string()],
    };
    assert_eq!(
        doctor_report(&facts),
        vec![
            "config_path=/c.toml",
            "socket_path=/s.sock",
            "model_path=/m",
            "model_ready=true",
            "model_fallback_ready=false",
            "daemon_running=true",
            "daemon_status=OK recording=false",
            "output_command=ydotool type {text}",
            "ydotool_in_path=false",
            "audio_input_device_config=",
            "audio_input_devices=2",
            "audio_device_1=Mic",
            "audio_device_2=USB",
        ]
    );
    let quiet = DoctorFacts { daemon_status: None, devices: vec![], input_device: Some("USB".to_string()), ..facts };
    let lines = doctor_report(&quiet);
    assert_eq!(lines[5], "daemon_running=false");
    assert_eq!(lines[6], "output_command=ydotool type {text}");
    assert_eq!(lines[8], "audio_input_device_config=USB");
    assert_eq!(lines.last().unwrap(), "audio_input_devices=0");
}
