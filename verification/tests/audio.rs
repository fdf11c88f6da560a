use voice_cmd::audio::{choose_input_device, frame_size, pick_input_device, push_frames, AudioConfig, AudioInfo, DeviceChoice};

fn names(v: &[&str]) -> Vec<String> {
    v.iter().map(|s| s.to_string()).collect()
}

#[test]
fn frame_sizes() {
    assert_eq!(frame_size(48_000, 30), 1440);
    assert_eq!(frame_size(16_000, 30), 480);
    assert_eq!(frame_size(44_100, 20), 882);
    assert_eq!(frame_size(16_000, 0), 1);
    assert_eq!(frame_size(10, 10), 1);
}

#[test]
fn device_choice_prefers_an_exact_name() {
    let devs = names(&["USB Mic Pro", "Built-in Audio", "USB Mic"]);
    assert_eq!(choose_input_device(&devs, Some("USB Mic")), DeviceChoice::Exact(2));
    assert_eq!(choose_input_device(&devs, Some("  USB Mic  ")), DeviceChoice::Exact(2));
    assert_eq!(choose_input_device(&devs, Some("usb mic")), DeviceChoice::Partial(0));
    assert_eq!(choose_input_device(&devs, Some("BUILT")), DeviceChoice::Partial(1));
}

#[test]
fn device_choice_falls_back_to_the_default() {
    let devs = names(&["Built-in Audio", "USB Mic"]);
    assert_eq!(choose_input_device(&devs, None), DeviceChoice::Default);
    assert_eq!(choose_input_device(&devs, Some("   ")), DeviceChoice::Default);
    assert_eq!(choose_input_device(&devs, Some("headset")), DeviceChoice::Default);
    assert_eq!(choose_input_device(&vec![], Some("x")), DeviceChoice::Default);
}

#[test]
fn device_choice_lowercases_beyond_ascii() {
    let devs = names(&["ÉCOUTEUR"]);
    assert_eq!(choose_input_device(&devs, Some("écout")), DeviceChoice::Partial(0));
    let lowered = names(&["a", "bc"]);
    assert_eq!(pick_input_device(&names(&["A", "BC"]), &lowered, "x", "c"), DeviceChoice::Partial(1));
}

#[test]
fn frames_take_the_first_channel_and_keep_the_rest_buffered() {
    let data = [1, 10, 2, 20, 3, 30, 4, 40, 5, 50];
    let mut buffer: Vec<i32> = Vec::new();
    let frames = push_frames(&data, 2, 2, &mut buffer);
    assert_eq!(frames, vec![vec![1, 2], vec![3, 4]]);
    assert_eq!(buffer, vec![5]);
    let frames = push_frames(&[6, 60, 7], 2, 2, &mut buffer);
    assert_eq!(frames, vec![vec![5, 6]]);
    assert_eq!(buffer, vec![7]);
}

#[test]
fn frames_of_float_samples() {
    let data = [0.5_f32, 0.25, -0.5];
    let mut buffer: Vec<f32> = vec![0.0];
    let frames = push_frames(&data, 1, 3, &mut buffer);
    assert_eq!(frames, vec![vec![0.0, 0.5, 0.25]]);
    assert_eq!(buffer, vec![-0.5]);
}

#[test]
fn every_sample_is_kept_in_order() {
    let data: Vec<u32> = (0..97).collect();
    let mut buffer: Vec<u32> = Vec::new();
    let frames = push_frames(&data, 3, 5, &mut buffer);
    let mut all: Vec<u32> = frames.iter().flatten().copied().collect();
    all.extend(buffer.iter().copied());
    let firsts: Vec<u32> = (0..97).step_by(3).collect();
    assert_eq!(all, firsts);
    assert!(frames.iter().all(|f| f.len() == 5));
    assert!(buffer.len() < 5);
}

#[test]
fn capture_settings_hold_plain_values() {
    let c = AudioConfig { frame_ms: 30, input_device: Some("USB".to_string()) };
    let i = AudioInfo { sample_rate: 48_000, channels: 2 };
    assert_eq!(frame_size(i.sample_rate, c.frame_ms), 1440);
    assert_eq!(i.channels, 2);
}
