use voice_cmd::json::{parse_json, JsonValue};
use voice_cmd::config::TtsBackendConfig;
use voice_cmd::tts::{default_backend_paths_in, plan_backend_assets, AssetPlan, Engine, KokoroVoice, OutputMode, TtsError};
use voice_cmd::tts_assets::{
    asset_action, asset_target, kokoro_inputs, output_destination, piper_runtime_after_download, piper_runtime_step,
    piper_speaker_lines, speaker_id_map, speaker_lines, tts_doctor_lines, AssetAction, AssetStage, RuntimeStep, TtsDoctorFacts, DOCTOR_SAMPLE_TEXT,
};

fn backend() -> TtsBackendConfig {
    TtsBackendConfig {
        command: String::new(),
        model_path: None,
        runtime_path: None,
        voices_path: None,
        voice: None,
        language: None,
        speaker: None,
        model_url: None,
        runtime_url: None,
        config_url: None,
        voice_url: None,
    }
}

/// Runs the asset stages against a set of existing files; a download or a
/// copy creates its destination.
fn run_stages(plan: &AssetPlan, present: &[&str], fallback_exists: bool) -> Vec<AssetAction> {
    let mut files: Vec<String> = present.iter().map(|s| s.to_string()).collect();
    let mut out = Vec::new();
    let mut stage = AssetStage::Model;
    while stage != AssetStage::Done {
        let exists = asset_target(plan, stage).map(|t| files.contains(&t)).unwrap_or(false);
        let (action, next) = asset_action(plan, stage, exists, fallback_exists);
        if let Some(a) = action {
            match &a {
                AssetAction::Download { dest, .. } => files.push(dest.clone()),
                AssetAction::Copy { to, .. } => files.push(to.clone()),
                AssetAction::Fail(_) => {
                    out.push(a);
                    break;
                }
            }
            out.push(a);
        }
        stage = next;
    }
    out
}

#[test]
fn piper_asset_steps() {
    let mut cfg = backend();
    cfg.model_url = Some("http://m".to_string());
    let defaults = default_backend_paths_in(Engine::Piper, "/d");
    let plan = plan_backend_assets(Engine::Piper, &cfg, &defaults);
    let steps = run_stages(&plan, &[], true);
    assert_eq!(steps.len(), 1);
    match &steps[0] {
        AssetAction::Download { url, dest } => {
            assert_eq!(url, "http://m");
            assert_eq!(dest, "/d/models/tts/piper/en_US-lessac-medium.onnx");
        }
        other => panic!("unexpected {:?}", other),
    }
    cfg.model_path = Some("/own/v.onnx".to_string());
    cfg.config_url = None;
    let plan = plan_backend_assets(Engine::Piper, &cfg, &defaults);
    let steps = run_stages(&plan, &["/own/v.onnx"], true);
    match &steps[..] {
        [AssetAction::Copy { from, to }] => {
            assert_eq!(from, "/d/models/tts/piper/en_US-lessac-medium.onnx.json");
            assert_eq!(to, "/own/v.onnx.json");
        }
        other => panic!("unexpected {:?}", other),
    }
    assert!(run_stages(&plan, &["/own/v.onnx"], false).is_empty());
    cfg.config_url = Some("http://c".to_string());
    let plan = plan_backend_assets(Engine::Piper, &cfg, &defaults);
    match &run_stages(&plan, &["/own/v.onnx"], true)[..] {
        [AssetAction::Download { url, dest }] => {
            assert_eq!(url, "http://c");
            assert_eq!(dest, "/own/v.onnx.json");
        }
        other => panic!("unexpected {:?}", other),
    }
    let (a, next) = asset_action(&plan, AssetStage::Done, false, false);
    assert!(a.is_none());
    assert_eq!(next, AssetStage::Done);
}

#[test]
fn kokoro_asset_steps_and_failures() {
    let cfg = backend();
    let defaults = default_backend_paths_in(Engine::Kokoro, "/d");
    let plan = plan_backend_assets(Engine::Kokoro, &cfg, &defaults);
    match &run_stages(&plan, &[], false)[..] {
        [AssetAction::Fail(e)] => assert_eq!(e.message(), "missing model and no model_url configured"),
        other => panic!("unexpected {:?}", other),
    }
    match &run_stages(&plan, &["/d/models/tts/kokoro/kokoro-v1.0.onnx"], false)[..] {
        [AssetAction::Fail(e)] => assert_eq!(e.message(), "kokoro voices missing and no voice_url configured"),
        other => panic!("unexpected {:?}", other),
    }
    let mut with_urls = backend();
    with_urls.model_url = Some("http://m".to_string());
    with_urls.voice_url = Some("http://v".to_string());
    let plan = plan_backend_assets(Engine::Kokoro, &with_urls, &defaults);
    let steps = run_stages(&plan, &[], false);
    assert_eq!(steps.len(), 2);
    match &steps[1] {
        AssetAction::Download { url, dest } => {
            assert_eq!(url, "http://v");
            assert_eq!(dest, "/d/models/tts/kokoro/voices.bin");
        }
        other => panic!("unexpected {:?}", other),
    }
    assert!(run_stages(&plan, &["/d/models/tts/kokoro/kokoro-v1.0.onnx", "/d/models/tts/kokoro/voices.bin"], false)
        .is_empty());
}

#[test]
fn a_voice_pack_written_by_the_model_download_is_not_fetched_again() {
    let mut cfg = backend();
    cfg.model_url = Some("http://m".to_string());
    cfg.voice_url = Some("http://v".to_string());
    cfg.model_path = Some("/same".to_string());
    cfg.voices_path = Some("/same".to_string());
    let defaults = default_backend_paths_in(Engine::Kokoro, "/d");
    let plan = plan_backend_assets(Engine::Kokoro, &cfg, &defaults);
    let steps = run_stages(&plan, &[], false);
    assert_eq!(steps.len(), 1);
    assert!(matches!(&steps[0], AssetAction::Download { url, .. } if url == "http://m"));
}

#[test]
fn piper_runtime_choice() {
    let mut cfg = backend();
    cfg.runtime_path = Some("/opt/piper".to_string());
    assert!(matches!(piper_runtime_step(&cfg, true, None, false, "x86_64"), RuntimeStep::Use(p) if p == "/opt/piper"));
    assert!(matches!(piper_runtime_step(&cfg, false, None, false, "x86_64"), RuntimeStep::Fail(TtsError::NoDataDir)));
    match piper_runtime_step(&cfg, false, Some("/d"), true, "x86_64") {
        RuntimeStep::Use(p) => assert_eq!(p, "/d/models/tts/runtime/piper/piper/piper"),
        other => panic!("unexpected {:?}", other),
    }
    match piper_runtime_step(&cfg, false, Some("/d"), false, "riscv64") {
        RuntimeStep::Fail(e) => assert_eq!(
            e.message(),
            "no piper runtime configured for architecture 'riscv64' (set tts.piper.runtime_path or tts.piper.runtime_url)"
        ),
        other => panic!("unexpected {:?}", other),
    }
    cfg.runtime_url = Some("http://r.tar.gz".to_string());
    match piper_runtime_step(&cfg, false, Some("/d"), false, "x86_64") {
        RuntimeStep::Download { url, root } => {
            assert_eq!(url, "http://r.tar.gz");
            assert_eq!(root, "/d/models/tts/runtime/piper");
        }
        other => panic!("unexpected {:?}", other),
    }
    assert_eq!(piper_runtime_after_download("/d", true).unwrap(), "/d/models/tts/runtime/piper/piper/piper");
    assert_eq!(
        piper_runtime_after_download("/d", false).unwrap_err().message(),
        "piper runtime download completed but binary not found at /d/models/tts/runtime/piper/piper/piper"
    );
}

#[test]
fn kokoro_engine_inputs() {
    let mut cfg = backend();
    assert!(matches!(kokoro_inputs(&cfg), Err(TtsError::MissingKokoroModelPath)));
    cfg.model_path = Some("/k.onnx".to_string());
    assert!(matches!(kokoro_inputs(&cfg), Err(TtsError::MissingVoicesPath)));
    cfg.voices_path = Some("/v.bin".to_string());
    let (m, v, voice) = kokoro_inputs(&cfg).unwrap();
    assert_eq!((m.as_str(), v.as_str(), voice), ("/k.onnx", "/v.bin", KokoroVoice::AfBella));
    cfg.voice = Some("AM_MICHAEL".to_string());
    assert_eq!(kokoro_inputs(&cfg).unwrap().2, KokoroVoice::AmMichael);
    cfg.voice = Some("robot".to_string());
    assert_eq!(
        kokoro_inputs(&cfg).unwrap_err().message(),
        "unsupported kokoro voice 'robot'; supported: af_bella, af_sky, af_nova, am_michael, am_adam"
    );
}

#[test]
fn file_output_destination() {
    assert_eq!(output_destination(Some("/a.wav".to_string()), Some("/b.wav".to_string())).unwrap(), "/a.wav");
    assert_eq!(output_destination(None, Some("/b.wav".to_string())).unwrap(), "/b.wav");
    assert_eq!(
        output_destination(None, None).unwrap_err().message(),
        "--output file requires --output-path or tts.output_path in config"
    );
}

#[test]
fn speakers_are_listed_by_id() {
    let map = vec![
        ("zed".to_string(), Some(2)),
        ("amy".to_string(), Some(0)),
        ("odd".to_string(), None),
        ("bob".to_string(), Some(2)),
        ("neg".to_string(), Some(-1)),
    ];
    assert_eq!(speaker_lines(Some(map)), vec!["-1\tneg", "0\tamy", "2\tzed", "2\tbob"]);
    assert_eq!(speaker_lines(None), vec!["single-speaker model (no speaker_id_map)"]);
    assert_eq!(
        speaker_lines(Some(vec![("x".to_string(), None)])),
        vec!["single-speaker model (speaker_id_map empty)"]
    );
    assert_eq!(speaker_lines(Some(vec![("min".to_string(), Some(i64::MIN))])), vec!["-9223372036854775808\tmin"]);
}

#[test]
fn helper_diagnostics() {
    let mut b = backend();
    b.command = "kokoro-cli".to_string();
    b.voice = Some("af_sky".to_string());
    b.runtime_path = Some("/rt".to_string());
    let facts = TtsDoctorFacts {
        config_path: "/c.toml".to_string(),
        engine: Engine::Kokoro,
        output_mode: OutputMode::File,
        backend: b,
        model_path: "/k.onnx".to_string(),
        model_exists: true,
        voices_path: Some("/v.bin".to_string()),
        voices_exists: false,
        runtime_exists: false,
        sample_text: DOCTOR_SAMPLE_TEXT.to_string(),
    };
    assert_eq!(
        tts_doctor_lines(&facts),
        vec![
            "config_path=/c.toml",
            "engine=Kokoro",
            "output_mode=File",
            "backend_command=kokoro-cli",
            "model_path=/k.onnx",
            "model_exists=true",
            "voices_path=/v.bin",
            "voices_exists=false",
            "runtime_path=/rt",
            "runtime_exists=false",
            "voice=af_sky",
            "sample_text=This is a test sentence.",
            "kokoro_normalized_text=this is a test sentence.",
        ]
    );
}

#[test]
fn error_texts() {
    assert_eq!(TtsError::NoText.message(), "no text provided (use --text or pipe text on stdin)");
    assert_eq!(
        TtsError::EmptyCommand { engine: Engine::Piper }.message(),
        "tts backend command is empty; configure [tts.Piper] command"
    );
    assert_eq!(TtsError::UnsupportedEngine { value: "x".to_string() }.message(), "unsupported tts engine: x");
    assert_eq!(
        TtsError::MissingPiperMetadata { path: "/v.json".to_string() }.message(),
        "missing piper metadata config at /v.json (expected alongside model)"
    );
}

#[test]
fn piper_metadata_is_read_from_its_text() {
    let raw = r#"{"audio": {"sample_rate": 22050}, "speaker_id_map": {"zed": 2, "amy": 0, "odd": "x", "big": 1.5, "neg": -1}}"#;
    assert_eq!(
        piper_speaker_lines(raw),
        Some(vec!["-1\tneg".to_string(), "0\tamy".to_string(), "2\tzed".to_string()])
    );
    assert_eq!(
        piper_speaker_lines(r#"{"num_speakers": 1}"#),
        Some(vec!["single-speaker model (no speaker_id_map)".to_string()])
    );
    assert_eq!(
        piper_speaker_lines(r#"{"speaker_id_map": {}}"#),
        Some(vec!["single-speaker model (speaker_id_map empty)".to_string()])
    );
    assert_eq!(
        piper_speaker_lines(r#"{"speaker_id_map": [1, 2]}"#),
        Some(vec!["single-speaker model (no speaker_id_map)".to_string()])
    );
    assert_eq!(piper_speaker_lines("[1, 2]"), Some(vec!["single-speaker model (no speaker_id_map)".to_string()]));
    assert_eq!(piper_speaker_lines("{not json"), None);
    assert_eq!(piper_speaker_lines(""), None);
}

#[test]
fn json_values_and_the_speaker_map() {
    let doc = parse_json(r#"{"speaker_id_map": {"b": 7, "a": null}, "x": [true, "s", 9.5]}"#).unwrap();
    assert_eq!(speaker_id_map(&doc), Some(vec![("a".to_string(), None), ("b".to_string(), Some(7))]));
    match parse_json("[true, \"s\", 9.5, null, 3]").unwrap() {
        JsonValue::Array(items) => {
            assert!(matches!(items[0], JsonValue::Bool(true)));
            assert!(matches!(&items[1], JsonValue::Str(s) if s == "s"));
            assert!(matches!(items[2], JsonValue::OtherNumber));
            assert!(matches!(items[3], JsonValue::Null));
            assert!(matches!(items[4], JsonValue::Int(3)));
        }
        other => panic!("unexpected {:?}", other),
    }
    assert!(parse_json("1 2").is_none());
    assert_eq!(speaker_id_map(&JsonValue::Int(1)), None);
}
