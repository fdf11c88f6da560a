use voice_cmd::hooks::{output_hook_argv, sound_plan, HookError, SoundPlan};

#[test]
fn output_hook_replaces_the_placeholder() {
    let argv = output_hook_argv("hello", "ydotool type --key-delay 2 {text}").unwrap().unwrap();
    assert_eq!(argv, vec!["ydotool", "type", "--key-delay", "2", "hello "]);
    let argv = output_hook_argv("a b", "wtype 'say: {text}!'").unwrap().unwrap();
    assert_eq!(argv, vec!["wtype", "say: a b !"]);
}

#[test]
fn output_hook_appends_the_text_without_placeholder() {
    let argv = output_hook_argv("hi\n", "  echo -n ").unwrap().unwrap();
    assert_eq!(argv, vec!["echo", "-n", "hi\n"]);
    let argv = output_hook_argv("", "cat").unwrap().unwrap();
    assert_eq!(argv, vec!["cat", " "]);
}

#[test]
fn output_hook_edge_cases() {
    assert_eq!(output_hook_argv("hi", "   ").unwrap(), None);
    assert_eq!(output_hook_argv("hi", "''").unwrap(), Some(vec!["".to_string(), "hi ".to_string()]));
    assert_eq!(output_hook_argv("hi", "# only a comment").unwrap(), None);
    assert_eq!(output_hook_argv("hi", "echo 'unterminated"), Err(HookError::OutputCommand));
}

#[test]
fn sound_hook_plans() {
    assert!(matches!(sound_plan(false, "paplay x.wav"), Ok(SoundPlan::Silent)));
    assert!(matches!(sound_plan(true, "  "), Ok(SoundPlan::BuiltinTone)));
    match sound_plan(true, " paplay \"/a b.wav\" ") {
        Ok(SoundPlan::Run { argv }) => assert_eq!(argv, vec!["paplay", "/a b.wav"]),
        other => panic!("unexpected {:?}", other),
    }
    assert!(matches!(sound_plan(true, "paplay 'x"), Err(HookError::SoundCommand)));
}
