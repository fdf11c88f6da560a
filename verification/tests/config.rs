use voice_cmd::config::{
    config_path_in, default_hangover_frames, default_model_path, default_history_max_entries, default_kokoro_command,
    default_onset_frames, default_piper_command, default_piper_runtime_url, default_prefill_frames,
    default_sound_command, default_true, default_tts_engine, default_tts_kokoro_model_url,
    default_tts_kokoro_voice_url, default_tts_output_mode, default_tts_piper_config_url,
    default_tts_piper_model_url, default_vad_model_url, model_file_path_in, resolve_socket_path, Config,
    ConfigError, HistoryConfig, IpcConfig, SoundConfig, VadConfig, DEFAULT_ENERGY_THRESHOLD_BITS,
};

#[test]
fn defaults_of_the_configuration_file() {
    let c = Config::defaults_in(Some("/home/u/.local/share/voice-cmd"), "x86_64");
    assert_eq!(c.model.name, "parakeet-v2");
    assert_eq!(c.model.path, "/home/u/.local/share/voice-cmd/models/parakeet-tdt-0.6b-v2-int8");
    assert_eq!(c.model.quantization, "int8");
    assert_eq!(c.model.timestamp_granularity, None);
    assert_eq!(
        c.model.download_url.as_deref(),
        Some("https://huggingface.co/smcleod/parakeet-tdt-0.6b-v2-int8/resolve/main/parakeet-tdt-0.6b-v2-int8.tar.gz")
    );
    assert!(c.vad.enabled);
    assert_eq!(c.vad.min_speech_ms, 250);
    assert_eq!(c.vad.max_speech_ms, 10_000);
    assert_eq!(f32::from_bits(c.vad.energy_threshold_bits), 0.5);
    assert_eq!(c.vad.model_path, "/home/u/.local/share/voice-cmd/models/silero_vad_v4.onnx");
    assert_eq!((c.vad.onset_frames, c.vad.hangover_frames, c.vad.prefill_frames), (2, 20, 5));
    assert_eq!((c.audio.sample_rate, c.audio.frame_ms), (16_000, 30));
    assert_eq!(c.output.command, "ydotool type --key-delay 2 {text}");
    assert!(c.sound.enabled && c.sound.command.is_empty());
    assert_eq!(c.history.max_entries, 100);
    assert_eq!(c.tts.engine, "piper");
    assert_eq!(c.tts.kokoro.voice.as_deref(), Some("af_sky"));
    assert_eq!(
        c.tts.piper.runtime_url.as_deref(),
        Some("https://github.com/rhasspy/piper/releases/download/v1.2.0/piper_amd64.tar.gz")
    );
    assert_eq!(c.ipc.socket_path, None);
    let bare = Config::defaults_in(None, "mips");
    assert_eq!(bare.model.path, "models/parakeet-tdt-0.6b-v2-int8");
    assert_eq!(bare.tts.piper.runtime_url, None);
}

#[test]
fn section_defaults() {
    let v = VadConfig::default_with_model_path("/v.onnx".to_string());
    assert_eq!(v.model_path, "/v.onnx");
    assert_eq!(v.energy_threshold_bits, DEFAULT_ENERGY_THRESHOLD_BITS);
    assert!(VadConfig::default().model_path.ends_with("silero_vad_v4.onnx"));
    let s = SoundConfig::default();
    assert!(s.enabled);
    assert_eq!(HistoryConfig::default().max_entries, 100);
    assert_eq!(default_onset_frames(), 2);
    assert_eq!(default_hangover_frames(), 20);
    assert_eq!(default_prefill_frames(), 5);
    assert!(default_true());
    assert_eq!(default_sound_command(), "");
    assert_eq!(default_history_max_entries(), 100);
    assert_eq!(default_tts_engine(), "piper");
    assert_eq!(default_tts_output_mode(), "pipewire");
    assert_eq!(default_piper_command(), "");
    assert_eq!(default_kokoro_command(), "");
    assert_eq!(default_vad_model_url().as_deref(), Some("https://blob.handy.computer/silero_vad_v4.onnx"));
    assert!(default_tts_piper_model_url().unwrap().ends_with("en_US-lessac-medium.onnx"));
    assert!(default_tts_piper_config_url().unwrap().ends_with("en_US-lessac-medium.onnx.json"));
    assert!(default_tts_kokoro_model_url().unwrap().ends_with("kokoro-v1.0.int8.onnx"));
    assert!(default_tts_kokoro_voice_url().unwrap().ends_with("voices.bin"));
}

#[test]
fn defaults_for_the_current_user() {
    assert!(default_model_path().ends_with("models/parakeet-tdt-0.6b-v2-int8"));
    let c = Config::default_for_arch("aarch64");
    assert!(c.model.path.ends_with("parakeet-tdt-0.6b-v2-int8"));
    assert_eq!(c.model.quantization, "int8");
    assert!(c.tts.piper.runtime_url.unwrap().ends_with("piper_aarch64.tar.gz"));
}

#[test]
fn runtime_urls_by_architecture() {
    assert!(default_piper_runtime_url("aarch64").unwrap().ends_with("piper_aarch64.tar.gz"));
    assert!(default_piper_runtime_url("x86_64").unwrap().ends_with("piper_amd64.tar.gz"));
    assert_eq!(default_piper_runtime_url("x86"), None);
}

#[test]
fn paths_and_socket_choice() {
    assert_eq!(config_path_in(Some("/home/u/.config/voice-cmd")).unwrap(), "/home/u/.config/voice-cmd/config.toml");
    assert!(matches!(config_path_in(None), Err(ConfigError::NoConfigDir)));
    assert_eq!(model_file_path_in(Some("/d/"), "x"), "/d/models/x");
    let ipc = IpcConfig { socket_path: Some("/cfg.sock".to_string()) };
    let none = IpcConfig { socket_path: None };
    assert_eq!(resolve_socket_path(Some("/cli.sock".to_string()), &ipc, "/d.sock".to_string()), "/cli.sock");
    assert_eq!(resolve_socket_path(None, &ipc, "/d.sock".to_string()), "/cfg.sock");
    assert_eq!(resolve_socket_path(None, &none, "/d.sock".to_string()), "/d.sock");
}
