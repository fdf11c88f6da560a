use voice_cmd::transcription::{
    ensure_model_step, model_ready, model_status, parse_granularity, parse_quantization,
    quantization_files_for_dir, EnsureAction, EnsureStage, Granularity, ModelError, ModelFiles,
    Quantization, TranscriptionConfig,
};

fn files(is_dir: bool, int8: bool, fp32: bool) -> ModelFiles {
    ModelFiles {
        is_dir,
        preprocessor: true,
        vocab: true,
        encoder_int8: int8,
        decoder_int8: int8,
        encoder_fp32: fp32,
        decoder_fp32: fp32,
    }
}

#[test]
fn quantization_settings() {
    assert_eq!(parse_quantization("int8").unwrap(), Quantization::Int8);
    assert_eq!(parse_quantization("FP32").unwrap(), Quantization::Fp32);
    match parse_quantization("FP16") {
        Err(ModelError::UnsupportedQuantization(v)) => assert_eq!(v, "fp16"),
        other => panic!("unexpected {:?}", other),
    }
    assert_eq!(
        parse_quantization("Q4").unwrap_err().message(),
        "unsupported quantization: q4"
    );
}

#[test]
fn granularity_settings() {
    assert_eq!(parse_granularity(&None).unwrap(), None);
    assert_eq!(parse_granularity(&Some("Word".to_string())).unwrap(), Some(Granularity::Word));
    assert_eq!(parse_granularity(&Some("token".to_string())).unwrap(), Some(Granularity::Token));
    assert_eq!(parse_granularity(&Some("SEGMENT".to_string())).unwrap(), Some(Granularity::Segment));
    assert_eq!(
        parse_granularity(&Some("Line".to_string())).unwrap_err().message(),
        "unsupported timestamp_granularity: line"
    );
}

#[test]
fn model_readiness() {
    assert!(model_ready(&files(true, true, false), Quantization::Int8));
    assert!(!model_ready(&files(true, true, false), Quantization::Fp32));
    assert!(!model_ready(&files(false, true, true), Quantization::Int8));
    let mut f = files(true, true, true);
    f.vocab = false;
    assert!(!model_ready(&f, Quantization::Int8));
    let s = model_status(&files(true, false, false), Some(&files(true, true, false)), Quantization::Int8);
    assert!(!s.ready);
    assert!(s.fallback_ready);
    let s = model_status(&files(true, true, false), None, Quantization::Int8);
    assert!(s.ready);
    assert!(!s.fallback_ready);
}

#[test]
fn files_moved_out_of_a_directory() {
    assert_eq!(
        quantization_files_for_dir(&files(false, true, true)),
        Some(vec![
            "encoder-model.int8.onnx",
            "decoder_joint-model.int8.onnx",
            "nemo128.onnx",
            "vocab.txt",
            "config.json"
        ])
    );
    assert_eq!(
        quantization_files_for_dir(&files(true, false, true)),
        Some(vec!["encoder-model.onnx", "decoder_joint-model.onnx", "nemo128.onnx", "vocab.txt", "config.json"])
    );
    assert_eq!(quantization_files_for_dir(&files(true, false, false)), None);
}

fn cfg(path: &str, url: Option<&str>) -> TranscriptionConfig {
    TranscriptionConfig {
        model_path: path.to_string(),
        quantization: Quantization::Int8,
        timestamp_granularity: None,
        download_url: url.map(|u| u.to_string()),
    }
}

#[test]
fn making_a_model_available() {
    let c = cfg("/m/model", Some("http://x/m.tar.gz"));
    assert!(matches!(ensure_model_step(EnsureStage::Start, &c, true, false), (EnsureAction::Done, _)));
    let (a, s) = ensure_model_step(EnsureStage::Start, &c, false, false);
    assert!(matches!(a, EnsureAction::CreateDirs));
    assert_eq!(s, EnsureStage::DirsCreated);
    let (a, s) = ensure_model_step(s, &c, false, true);
    assert!(matches!(a, EnsureAction::MoveFromParent));
    assert_eq!(s, EnsureStage::MovedFromParent);
    let (a, s) = ensure_model_step(s, &c, false, false);
    match a {
        EnsureAction::Download(u) => assert_eq!(u, "http://x/m.tar.gz"),
        other => panic!("unexpected {:?}", other),
    }
    assert_eq!(s, EnsureStage::Downloaded);
    let (a, s2) = ensure_model_step(s, &c, false, true);
    assert!(matches!(a, EnsureAction::MoveFromParent));
    assert_eq!(s2, EnsureStage::MovedAfterDownload);
    match ensure_model_step(s2, &c, false, false).0 {
        EnsureAction::Fail(e) => assert_eq!(
            e.message(),
            "model download completed but files are missing at /m/model"
        ),
        other => panic!("unexpected {:?}", other),
    }
    assert!(matches!(ensure_model_step(EnsureStage::Downloaded, &c, true, false).0, EnsureAction::Done));
}

#[test]
fn making_a_model_available_can_fail_early() {
    let no_url = cfg("/m/model", None);
    match ensure_model_step(EnsureStage::Start, &no_url, false, false).0 {
        EnsureAction::Fail(e) => assert_eq!(e.message(), "model missing and no download_url configured"),
        other => panic!("unexpected {:?}", other),
    }
    let no_parent = cfg("/", Some("http://x"));
    match ensure_model_step(EnsureStage::Start, &no_parent, false, false).0 {
        EnsureAction::Fail(e) => assert_eq!(e.message(), "invalid model path"),
        other => panic!("unexpected {:?}", other),
    }
}
