use voice_cmd::daemon::{apply_reload, handle_command, Action, DaemonState, History, DEFAULT_HISTORY_MAX_ENTRIES};

#[test]
fn toggle_start_stop_and_status() {
    let mut state = DaemonState::new();
    let history = History::new();
    let o = handle_command("TOGGLE", &mut state, &history);
    assert!(state.recording);
    assert_eq!(o.reply, "OK recording=true");
    assert!(matches!(o.action, Action::Nothing));
    let o = handle_command("toggle", &mut state, &history);
    assert!(!state.recording);
    assert_eq!(o.reply, "OK recording=false");
    let o = handle_command("START", &mut state, &history);
    assert!(state.recording);
    assert_eq!(o.reply, "OK recording=true");
    let o = handle_command("STATUS", &mut state, &history);
    assert!(state.recording);
    assert_eq!(o.reply, "OK recording=true");
    let o = handle_command("STOP", &mut state, &history);
    assert!(!state.recording);
    assert_eq!(o.reply, "OK recording=false");
}

#[test]
fn toggling_twice_restores_the_state() {
    for start in [false, true] {
        let mut state = DaemonState { recording: start };
        let history = History::new();
        handle_command("TOGGLE", &mut state, &history);
        handle_command("TOGGLE", &mut state, &history);
        assert_eq!(state.recording, start);
    }
}

#[test]
fn other_commands_and_their_work() {
    let mut state = DaemonState::new();
    let history = History::new();
    let o = handle_command("bogus", &mut state, &history);
    assert_eq!(o.reply, "ERR unknown command");
    assert!(matches!(o.action, Action::Nothing));
    let o = handle_command("SHUTDOWN", &mut state, &history);
    assert_eq!(o.reply, "OK shutting_down=true");
    assert!(matches!(o.action, Action::Shutdown));
    let o = handle_command("RELOAD\n", &mut state, &history);
    assert_eq!(o.reply, "OK reloaded=true note=audio_vad_model_changes_apply_on_daemon_restart");
    assert!(matches!(o.action, Action::Reload));
    let o = handle_command("TEXT hello", &mut state, &history);
    assert_eq!(o.reply, "OK");
    match o.action {
        Action::Output { text } => assert_eq!(text, "hello"),
        _ => panic!("expected output work"),
    }
    assert!(!state.recording);
}

#[test]
fn history_keeps_the_most_recent_entries() {
    let mut h = History::new();
    h.record(1, "one".to_string(), 2);
    h.record(2, "two".to_string(), 2);
    h.record(3, "three".to_string(), 2);
    assert_eq!(h.len(), 2);
    assert_eq!(h.reply(10), "OK\n2\ttwo\n3\tthree");
    assert_eq!(h.reply(1), "OK\n3\tthree");
    h.record(4, "four".to_string(), 0);
    assert_eq!(h.len(), 1);
    assert_eq!(h.reply(5), "OK\n4\tfour");
    assert_eq!(DEFAULT_HISTORY_MAX_ENTRIES, 100);
}

#[test]
fn history_lines_flatten_newlines_and_trim() {
    let mut h = History::new();
    h.record(1700000000123, "  hello\nworld  ".to_string(), 100);
    let mut state = DaemonState::new();
    let o = handle_command("HISTORY", &mut state, &h);
    assert_eq!(o.reply, "OK\n1700000000123\thello world");
    assert_eq!(History::new().reply(20), "OK");
}

#[test]
fn blank_transcripts_are_not_kept() {
    let mut h = History::new();
    assert!(h.record_transcript(1, "hello".to_string(), 2));
    assert!(!h.record_transcript(2, "  \n\t".to_string(), 2));
    assert!(!h.record_transcript(3, String::new(), 2));
    assert!(h.record_transcript(4, " world ".to_string(), 2));
    assert!(h.record_transcript(5, "again".to_string(), 2));
    assert_eq!(h.len(), 2);
    assert_eq!(h.reply(10), "OK\n4\tworld\n5\tagain");
}

#[test]
fn reload_replaces_the_configuration_only_when_it_loaded() {
    let mut running: u32 = 1;
    let ok: Result<u32, String> = Ok(7);
    let reply = apply_reload(&mut running, ok);
    assert_eq!(running, 7);
    assert_eq!(
        reply,
        Ok("OK reloaded=true note=audio_vad_model_changes_apply_on_daemon_restart".to_string())
    );

    let failed: Result<u32, String> = Err("failed to parse config".to_string());
    let reply = apply_reload(&mut running, failed);
    assert_eq!(running, 7);
    assert_eq!(reply, Err("failed to parse config".to_string()));
}
