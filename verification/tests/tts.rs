use voice_cmd::config::{TtsBackendConfig, KOKORO_MODEL_URL, DEFAULT_KOKORO_INT8_MODEL_URL, PIPER_RUNTIME_URL_AMD64};
use voice_cmd::tts::{
    backend_cfg, default_backend_paths, default_backend_paths_in, default_config, embedded_piper_args, format_millis, kokoro_voice_names,
    normalize_text_for_kokoro, parse_engine, parse_kokoro_voice, parse_output_mode, piper_preset_values,
    piper_runtime_paths_in, plan_backend, plan_backend_assets, render_template, resolve_engine,
    resolve_output_mode, should_use_builtin_kokoro, should_use_builtin_piper, stdin_text, BackendPlan,
    Engine, KokoroVoice, OutputMode, PiperPreset, TtsError,
};

fn empty_backend() -> TtsBackendConfig {
    TtsBackendConfig {
        command: String::new(),
        model_path: None,
        runtime_path: None,
        voices_path: None,
        voice: None,
        language: None,
        speaker: None,
        model_url: None,
        runtime_url: None,
        config_url: None,
        voice_url: None,
    }
}

#[test]
fn render_template_replaces_known_tokens() {
    let vars = vec![
        ("text".to_string(), "hello".to_string()),
        ("model".to_string(), "/tmp/m.onnx".to_string()),
    ];
    let out = render_template("piper --model {model} --text {text}", &vars);
    assert_eq!(out, "piper --model /tmp/m.onnx --text hello");
}

#[test]
fn parse_engine_accepts_expected_values() {
    assert!(matches!(parse_engine("piper").unwrap(), Engine::Piper));
    assert!(matches!(parse_engine("kokoro").unwrap(), Engine::Kokoro));
    assert!(parse_engine("other").is_err());
}

#[test]
fn parse_engine_ignores_ascii_case_and_reports_lowered_value() {
    assert_eq!(parse_engine("PiPeR").unwrap(), Engine::Piper);
    match parse_engine("Espeak") {
        Err(TtsError::UnsupportedEngine { value }) => assert_eq!(value, "espeak"),
        other => panic!("unexpected {:?}", other),
    }
}

#[test]
fn output_modes_parse_and_cli_choice_wins() {
    assert_eq!(parse_output_mode("FILE").unwrap(), OutputMode::File);
    assert_eq!(parse_output_mode("pipewire").unwrap(), OutputMode::Pipewire);
    assert!(matches!(parse_output_mode("speaker"), Err(TtsError::UnsupportedOutputMode { .. })));
    assert_eq!(resolve_output_mode(Some(OutputMode::File), "bogus").unwrap(), OutputMode::File);
    assert_eq!(resolve_engine(Some(Engine::Kokoro), "bogus").unwrap(), Engine::Kokoro);
    assert_eq!(resolve_engine(None, "kokoro").unwrap(), Engine::Kokoro);
    assert!(resolve_engine(None, "bogus").is_err());
}

#[test]
fn kokoro_voices_parse_case_insensitively() {
    assert_eq!(parse_kokoro_voice("AF_SKY").unwrap(), KokoroVoice::AfSky);
    assert_eq!(parse_kokoro_voice("am_adam").unwrap(), KokoroVoice::AmAdam);
    match parse_kokoro_voice("Zz_Top") {
        Err(TtsError::UnsupportedKokoroVoice { value }) => assert_eq!(value, "zz_top"),
        other => panic!("unexpected {:?}", other),
    }
    assert_eq!(kokoro_voice_names(), vec!["af_bella", "af_sky", "af_nova", "am_michael", "am_adam"]);
}

#[test]
fn kokoro_text_is_normalized() {
    let out = normalize_text_for_kokoro("  This is \u{201C}it\u{201D}\nThat one\tThose  ");
    assert_eq!(out, "this is \"it\" that one Those");
    assert_eq!(normalize_text_for_kokoro("I\u{2019}m here. These are"), "I'm here. these are");
    assert_eq!(normalize_text_for_kokoro(""), "");
}

#[test]
fn builtin_backends_are_chosen_by_command() {
    assert!(should_use_builtin_piper(""));
    assert!(should_use_builtin_piper("piper --model {model} --output_file {output}"));
    assert!(!should_use_builtin_piper("piper"));
    assert!(should_use_builtin_kokoro(""));
    assert!(!should_use_builtin_kokoro("kokoro"));
}

#[test]
fn piper_presets_and_their_text() {
    assert_eq!(piper_preset_values(PiperPreset::Masculine), (1100, 450, 700));
    assert_eq!(piper_preset_values(PiperPreset::Crisp), (950, 350, 550));
    assert_eq!(format_millis(1100), "1.100");
    assert_eq!(format_millis(450), "0.450");
    assert_eq!(format_millis(12005), "12.005");
}

#[test]
fn embedded_piper_arguments() {
    let mut cfg = empty_backend();
    cfg.model_path = Some("/m.onnx".to_string());
    cfg.speaker = Some(3);
    let args = embedded_piper_args(&cfg, "/o.wav", PiperPreset::Natural).unwrap();
    assert_eq!(
        args,
        vec![
            "--model", "/m.onnx", "--output_file", "/o.wav", "--length_scale", "1.000", "--noise_scale",
            "0.600", "--noise_w", "0.850", "--speaker", "3",
        ]
    );
    cfg.model_path = None;
    assert!(matches!(embedded_piper_args(&cfg, "/o.wav", PiperPreset::Natural), Err(TtsError::MissingModelPath)));
}

#[test]
fn backend_plans() {
    let cfg = empty_backend();
    assert!(matches!(plan_backend(Engine::Piper, &cfg, "hi", "/o.wav"), Ok(BackendPlan::EmbeddedPiper)));
    assert!(matches!(plan_backend(Engine::Kokoro, &cfg, "hi", "/o.wav"), Ok(BackendPlan::BuiltinKokoro)));

    let mut cmd = empty_backend();
    cmd.command = "  espeak {text} -w {output} --voice {voice}  ".to_string();
    cmd.model_path = Some("/m".to_string());
    match plan_backend(Engine::Piper, &cmd, "hi there", "/o.wav") {
        Ok(BackendPlan::Command { argv, text_on_stdin }) => {
            assert_eq!(argv, vec!["espeak", "hi", "there", "-w", "/o.wav", "--voice"]);
            assert!(!text_on_stdin);
        }
        other => panic!("unexpected {:?}", other),
    }

    let mut stdin_cmd = empty_backend();
    stdin_cmd.command = "kokoro-cli --model '{model}' --speaker {speaker}".to_string();
    stdin_cmd.model_path = Some("/a b.onnx".to_string());
    stdin_cmd.speaker = Some(7);
    match plan_backend(Engine::Kokoro, &stdin_cmd, "hi", "/o.wav") {
        Ok(BackendPlan::Command { argv, text_on_stdin }) => {
            assert_eq!(argv, vec!["kokoro-cli", "--model", "/a b.onnx", "--speaker", "7"]);
            assert!(text_on_stdin);
        }
        other => panic!("unexpected {:?}", other),
    }

    let mut no_model = empty_backend();
    no_model.command = "say {text}".to_string();
    assert!(matches!(plan_backend(Engine::Piper, &no_model, "hi", "/o"), Err(TtsError::MissingModelPath)));

    let mut broken = empty_backend();
    broken.command = "say \"oops".to_string();
    broken.model_path = Some("/m".to_string());
    assert!(matches!(plan_backend(Engine::Piper, &broken, "hi", "/o"), Err(TtsError::CommandParse)));
}

#[test]
fn default_paths_under_the_data_directory() {
    let p = default_backend_paths_in(Engine::Piper, "/d");
    assert_eq!(p.model, "/d/models/tts/piper/en_US-lessac-medium.onnx");
    assert_eq!(p.piper_config, Some("/d/models/tts/piper/en_US-lessac-medium.onnx.json".to_string()));
    assert_eq!(p.voices, None);
    let k = default_backend_paths_in(Engine::Kokoro, "/d/");
    assert_eq!(k.model, "/d/models/tts/kokoro/kokoro-v1.0.onnx");
    assert_eq!(k.voices, Some("/d/models/tts/kokoro/voices.bin".to_string()));
    assert_eq!(
        piper_runtime_paths_in("/d"),
        ("/d/models/tts/runtime/piper".to_string(), "/d/models/tts/runtime/piper/piper/piper".to_string())
    );
}

#[test]
fn kokoro_assets_swap_the_quantized_model() {
    let mut cfg = empty_backend();
    cfg.model_url = Some(DEFAULT_KOKORO_INT8_MODEL_URL.to_string());
    let defaults = default_backend_paths_in(Engine::Kokoro, "/d");
    let plan = plan_backend_assets(Engine::Kokoro, &cfg, &defaults);
    assert_eq!(plan.backend.model_url, Some(KOKORO_MODEL_URL.to_string()));
    assert_eq!(plan.model_path, "/d/models/tts/kokoro/kokoro-v1.0.onnx");
    assert_eq!(plan.backend.model_path, Some(plan.model_path.clone()));
    assert_eq!(plan.voices_path, Some("/d/models/tts/kokoro/voices.bin".to_string()));
    assert_eq!(plan.piper_config_path, None);

    cfg.model_path = Some("/own.onnx".to_string());
    let plan = plan_backend_assets(Engine::Kokoro, &cfg, &defaults);
    assert_eq!(plan.backend.model_url, Some(DEFAULT_KOKORO_INT8_MODEL_URL.to_string()));
    assert_eq!(plan.model_path, "/own.onnx");
}

#[test]
fn piper_assets_name_the_metadata_file() {
    let mut cfg = empty_backend();
    cfg.model_path = Some("/v/voice.onnx".to_string());
    let defaults = default_backend_paths_in(Engine::Piper, "/d");
    let plan = plan_backend_assets(Engine::Piper, &cfg, &defaults);
    assert_eq!(plan.piper_config_path, Some("/v/voice.onnx.json".to_string()));
    assert_eq!(plan.piper_config_fallback, Some("/d/models/tts/piper/en_US-lessac-medium.onnx.json".to_string()));
    assert_eq!(plan.voices_path, None);
}

#[test]
fn stdin_text_is_trimmed_and_required() {
    assert_eq!(stdin_text("  hi there \n").unwrap(), "hi there");
    assert!(matches!(stdin_text(" \n\t "), Err(TtsError::NoText)));
}

#[test]
fn helper_defaults() {
    let c = default_config("x86_64");
    assert_eq!(c.engine, "piper");
    assert_eq!(c.output_mode, "pipewire");
    assert_eq!(c.piper.runtime_url, Some(PIPER_RUNTIME_URL_AMD64.to_string()));
    assert_eq!(c.kokoro.voice, Some("af_bella".to_string()));
    assert_eq!(c.kokoro.model_url, Some(KOKORO_MODEL_URL.to_string()));
    assert_eq!(default_config("riscv64").piper.runtime_url, None);
}

#[test]
fn backend_sections_and_user_defaults() {
    let c = default_config("x86_64");
    assert_eq!(backend_cfg(Engine::Kokoro, &c).voice, Some("af_bella".to_string()));
    assert_eq!(backend_cfg(Engine::Piper, &c).voice, None);
    if let Ok(p) = default_backend_paths(Engine::Piper) {
        assert!(p.model.ends_with("models/tts/piper/en_US-lessac-medium.onnx"));
    }
}
