use voice_cmd::overlay::{
    energy_token, initial_energy_window, overlay_candidates, overlay_launch_error, overlay_spawn_args, parse_overlay_args,
    spawn_attempt_text, spawn_failure_message, spawn_start_message, spawn_success_message,
    shift_in, status_reports_recording, OverlayCommand, ENERGY_BARS,
};

#[test]
fn overlay_candidates_prioritize_matching_sibling_for_voicetext() {
    let candidates = overlay_candidates(Some("/opt/bin/voicetext"));
    assert_eq!(candidates[0], "/opt/bin/voicetext-overlay");
    assert!(candidates.contains(&"/opt/bin/voice-cmd-overlay".to_string()));
    assert!(candidates.contains(&"voicetext-overlay".to_string()));
    assert!(candidates.contains(&"voice-cmd-overlay".to_string()));
}

#[test]
fn overlay_candidates_prioritize_matching_sibling_for_voice_cmd() {
    let candidates = overlay_candidates(Some("/opt/bin/voice-cmd"));
    assert_eq!(candidates[0], "/opt/bin/voice-cmd-overlay");
    assert!(candidates.contains(&"/opt/bin/voicetext-overlay".to_string()));
    assert!(candidates.contains(&"voicetext-overlay".to_string()));
    assert!(candidates.contains(&"voice-cmd-overlay".to_string()));
}

#[test]
fn overlay_candidates_skip_duplicates_and_keep_order() {
    let candidates = overlay_candidates(Some("/opt/bin/voice-cmd"));
    assert_eq!(
        candidates,
        vec!["/opt/bin/voice-cmd-overlay", "/opt/bin/voicetext-overlay", "voicetext-overlay", "voice-cmd-overlay"]
    );
    assert_eq!(overlay_candidates(None), vec!["voicetext-overlay", "voice-cmd-overlay"]);
    let other = overlay_candidates(Some("/usr/local/bin/other"));
    assert_eq!(
        other,
        vec![
            "/usr/local/bin/other-overlay",
            "/usr/local/bin/voicetext-overlay",
            "/usr/local/bin/voice-cmd-overlay",
            "voicetext-overlay",
            "voice-cmd-overlay",
        ]
    );
}

fn args(v: &[&str]) -> Vec<String> {
    v.iter().map(|s| s.to_string()).collect()
}

#[test]
fn overlay_arguments() {
    match parse_overlay_args(&args(&["--fg", "--socket", "/run/s.sock"]), "/tmp/d.sock".to_string()) {
        OverlayCommand::Run(a) => {
            assert_eq!(a.socket_path, "/run/s.sock");
            assert!(a.foreground);
        }
        OverlayCommand::Help => panic!("unexpected help"),
    }
    match parse_overlay_args(&args(&["--socket"]), "/tmp/d.sock".to_string()) {
        OverlayCommand::Run(a) => {
            assert_eq!(a.socket_path, "/tmp/d.sock");
            assert!(!a.foreground);
        }
        OverlayCommand::Help => panic!("unexpected help"),
    }
    match parse_overlay_args(&args(&["--bogus", "x"]), "/tmp/d.sock".to_string()) {
        OverlayCommand::Run(a) => assert_eq!(a.socket_path, "/tmp/d.sock"),
        OverlayCommand::Help => panic!("unexpected help"),
    }
    assert!(matches!(parse_overlay_args(&args(&["--fg", "-h"]), String::new()), OverlayCommand::Help));
    assert!(matches!(parse_overlay_args(&args(&["--help"]), String::new()), OverlayCommand::Help));
}

#[test]
fn status_replies() {
    assert!(status_reports_recording("OK recording=true"));
    assert!(!status_reports_recording("OK recording=false"));
    assert!(!status_reports_recording(""));
    assert_eq!(energy_token("OK recording=true energy=0.25 x"), Some("0.25".to_string()));
    assert_eq!(energy_token("energy=1 energy=  0.5"), Some("0.5".to_string()));
    assert_eq!(energy_token("OK recording=false"), Some("OK".to_string()));
    assert_eq!(energy_token("OK energy="), None);
    assert_eq!(energy_token(""), None);
}

#[test]
fn launch_errors_and_log_lines() {
    assert_eq!(overlay_launch_error(&vec![], "/l.log"), "OVERLAY:could not find an overlay executable");
    assert_eq!(
        overlay_launch_error(&args(&["a (no such file)", "b (denied)"]), "/l.log"),
        "OVERLAY:could not launch overlay executable; attempts: a (no such file), b (denied); log=/l.log"
    );
    assert_eq!(overlay_spawn_args("/s"), vec!["--fg", "--socket", "/s"]);
    assert_eq!(
        spawn_start_message("/s", None, &args(&["a", "b"])),
        "spawn start: socket=/s current_exe=<unavailable> candidates=a, b"
    );
    assert_eq!(
        spawn_start_message("/s", Some("/bin/v"), &vec![]),
        "spawn start: socket=/s current_exe=/bin/v candidates="
    );
    assert_eq!(spawn_success_message("a", "/s"), "spawn success: candidate=a socket=/s");
    assert_eq!(spawn_failure_message("a", "boom"), "spawn failed: candidate=a error=boom");
    assert_eq!(spawn_attempt_text("a", "boom"), "a (boom)");
}

#[test]
fn energy_window_keeps_the_latest_values() {
    let mut w = initial_energy_window(0u32);
    assert_eq!(w, vec![0; ENERGY_BARS]);
    for x in 1..=9u32 {
        shift_in(&mut w, x);
    }
    assert_eq!(w, vec![3, 4, 5, 6, 7, 8, 9]);
    let mut one = vec![5i32];
    shift_in(&mut one, 6);
    assert_eq!(one, vec![6]);
}
