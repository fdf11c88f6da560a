use voice_cmd::vad::{
    fit_vad_frame, needs_resampling, settings_within_limits, vad_model_step, Passthrough, Segmenter,
    SegmenterSettings, VadModelStep, VAD_FRAME_SAMPLES,
};

fn settings(min_speech_ms: u64, fixed_chunk_ms: Option<u64>) -> SegmenterSettings {
    SegmenterSettings {
        enabled: true,
        min_speech_ms,
        max_speech_ms: 10_000,
        fixed_chunk_ms,
        onset_frames: 2,
        hangover_frames: 1,
        prefill_frames: 1,
        frame_ms: 30,
    }
}

#[test]
fn speech_is_collected_with_its_prefill_and_hangover() {
    let mut seg: Segmenter<i32> = Segmenter::new(settings(60, None));
    assert!(seg.on_frame(vec![1, 1, 1], true).is_empty());
    assert!(!seg.in_speech());
    assert!(seg.on_frame(vec![2, 2, 2], true).is_empty());
    assert!(seg.in_speech());
    assert_eq!(seg.speech_ms(), 60);
    assert_eq!(seg.buffered_samples(), 6);
    assert!(seg.on_frame(vec![3, 3, 3], true).is_empty());
    assert!(seg.on_frame(vec![4, 4, 4], false).is_empty());
    let out = seg.on_frame(vec![5, 5, 5], false);
    assert_eq!(out.len(), 1);
    assert_eq!(out[0].samples, vec![1, 1, 1, 2, 2, 2, 3, 3, 3, 4, 4, 4]);
    assert_eq!(out[0].duration_ms, 120);
    assert!(!seg.in_speech());
    assert_eq!(seg.speech_ms(), 0);
}

#[test]
fn short_speech_is_dropped() {
    let mut seg: Segmenter<i32> = Segmenter::new(settings(200, None));
    seg.on_frame(vec![1], true);
    seg.on_frame(vec![2], true);
    seg.on_frame(vec![3], false);
    let out = seg.on_frame(vec![4], false);
    assert!(out.is_empty());
    assert_eq!(seg.buffered_samples(), 0);
}

#[test]
fn a_single_voiced_frame_does_not_start_speech() {
    let mut seg: Segmenter<i32> = Segmenter::new(settings(0, None));
    seg.on_frame(vec![1], true);
    seg.on_frame(vec![2], false);
    seg.on_frame(vec![3], true);
    assert!(!seg.in_speech());
    seg.on_frame(vec![4], true);
    assert!(seg.in_speech());
}

#[test]
fn fixed_chunks_are_emitted_while_speaking() {
    let mut seg: Segmenter<i32> = Segmenter::new(settings(0, Some(90)));
    seg.on_frame(vec![1], true);
    assert!(seg.on_frame(vec![2], true).is_empty());
    let out = seg.on_frame(vec![3], true);
    assert_eq!(out.len(), 1);
    assert_eq!(out[0].samples, vec![1, 2, 3]);
    assert_eq!(out[0].duration_ms, 90);
    assert!(seg.in_speech());
    assert_eq!(seg.speech_ms(), 0);
}

#[test]
fn reset_forgets_everything() {
    let mut seg: Segmenter<i32> = Segmenter::new(settings(0, None));
    seg.on_frame(vec![1], true);
    seg.on_frame(vec![2], true);
    seg.reset();
    assert!(!seg.in_speech());
    assert_eq!(seg.buffered_samples(), 0);
    seg.on_frame(vec![3], true);
    assert!(!seg.in_speech());
}

#[test]
fn passthrough_chunks() {
    let mut p: Passthrough<i32> = Passthrough::new(30, Some(60));
    assert!(p.on_frame(vec![1, 2]).is_empty());
    let out = p.on_frame(vec![3]);
    assert_eq!(out.len(), 1);
    assert_eq!(out[0].samples, vec![1, 2, 3]);
    assert_eq!(out[0].duration_ms, 60);
    assert_eq!(p.speech_ms(), 0);
    let mut q: Passthrough<i32> = Passthrough::new(30, None);
    for _ in 0..10 {
        assert!(q.on_frame(vec![1]).is_empty());
    }
    assert_eq!(q.speech_ms(), 300);
    q.reset();
    assert_eq!(q.speech_ms(), 0);
}

#[test]
fn passthrough_drops_what_came_before_a_pause() {
    let mut p: Passthrough<i32> = Passthrough::new(30, Some(90));
    assert!(p.feed(true, vec![1, 2]).is_empty());
    assert!(p.feed(true, vec![3]).is_empty());
    assert_eq!(p.speech_ms(), 60);
    assert!(p.feed(false, vec![9, 9]).is_empty());
    assert_eq!(p.speech_ms(), 0);
    assert!(p.feed(true, vec![4]).is_empty());
    assert!(p.feed(true, vec![5]).is_empty());
    let out = p.feed(true, vec![6, 7]);
    assert_eq!(out.len(), 1);
    assert_eq!(out[0].samples, vec![4, 5, 6, 7]);
    assert_eq!(out[0].duration_ms, 90);
    let mut q: Passthrough<i32> = Passthrough::new(30, None);
    for i in 0..5 {
        assert!(q.feed(i % 2 == 0, vec![i]).is_empty());
    }
    assert_eq!(q.speech_ms(), 30);
}

#[test]
fn detector_frames() {
    assert!(!needs_resampling(16_000, 480));
    assert!(needs_resampling(48_000, 1440));
    assert!(needs_resampling(16_000, 479));
    let long: Vec<u8> = (0..=255).chain(0..=255).collect();
    let f = fit_vad_frame(long.clone(), 0);
    assert_eq!(f.len(), VAD_FRAME_SAMPLES);
    assert_eq!(&f[..], &long[..480]);
    let f = fit_vad_frame(vec![7u8, 8], 0);
    assert_eq!(f.len(), 480);
    assert_eq!(&f[..3], &[7, 8, 0]);
    assert!(f[2..].iter().all(|x| *x == 0));
}

#[test]
fn settings_limits_and_model_steps() {
    assert!(settings_within_limits(&settings(250, None)));
    let mut s = settings(250, None);
    s.prefill_frames = usize::MAX;
    assert!(!settings_within_limits(&s));
    let mut s = settings(250, None);
    s.max_speech_ms = u64::MAX;
    assert!(!settings_within_limits(&s));
    assert!(matches!(vad_model_step(true, &None), VadModelStep::Ready));
    assert!(matches!(vad_model_step(false, &None), VadModelStep::MissingUrl));
    match vad_model_step(false, &Some("http://x/m.onnx".to_string())) {
        VadModelStep::Download(u) => assert_eq!(u, "http://x/m.onnx"),
        other => panic!("unexpected {:?}", other),
    }
}

#[test]
fn a_pause_discards_what_was_collected() {
    let mut seg: Segmenter<i32> = Segmenter::new(settings(0, None));
    assert!(seg.feed(true, vec![1], true).is_empty());
    assert!(seg.feed(true, vec![2], true).is_empty());
    assert!(seg.in_speech());
    assert!(seg.feed(false, vec![99], true).is_empty());
    assert!(!seg.in_speech());
    assert_eq!(seg.buffered_samples(), 0);
    seg.feed(true, vec![3], true);
    seg.feed(true, vec![4], true);
    seg.feed(true, vec![5], false);
    let out = seg.feed(true, vec![6], false);
    assert_eq!(out.len(), 1);
    assert_eq!(out[0].samples, vec![3, 4, 5]);
}
