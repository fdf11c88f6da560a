//! The speech-to-text model's settings and the decisions around its files:
//! which quantization and timestamp granularity are meant, whether a model
//! directory is complete, which files to move, and the steps that make a
//! model available.
use vstd::prelude::*;
use crate::paths::{parent, std_path_parent};
use crate::text::{str_equal, to_lowercase, unicode_lowercase};

verus! {

/// Weight format of the transcription model.
#[derive(Clone, Copy, Debug, PartialEq, Eq, Structural)]
pub enum Quantization {
    Int8,
    Fp32,
}

/// Timestamp granularity asked of the transcription engine.
#[derive(Clone, Copy, Debug, PartialEq, Eq, Structural)]
pub enum Granularity {
    Token,
    Segment,
    Word,
}

/// What can go wrong with the model's settings or files.
#[derive(Debug)]
pub enum ModelError {
    /// The quantization (lower-cased) is not `int8` or `fp32`.
    UnsupportedQuantization(String),
    /// The granularity (lower-cased) is not `token`, `segment` or `word`.
    UnsupportedGranularity(String),
    /// The model is missing and no download location is configured.
    MissingDownloadUrl,
    /// The model path has no parent directory.
    InvalidModelPath,
    /// After the download the files are still not at the model path.
    FilesMissing(String),
}

/// Settings of the transcription model.
#[derive(Debug)]
pub struct TranscriptionConfig {
    pub model_path: String,
    pub quantization: Quantization,
    pub timestamp_granularity: Option<Granularity>,
    pub download_url: Option<String>,
}

/// Whether the model is usable where it is configured, and whether its
/// files sit in the parent directory instead.
#[derive(Debug, Clone, Copy)]
pub struct ModelStatus {
    pub ready: bool,
    pub fallback_ready: bool,
}

/// The quantization named by a lower-cased setting.
pub open spec fn quantization_named(lowered: Seq<char>) -> Option<Quantization> {
    if lowered == "int8"@ {
        Some(Quantization::Int8)
    } else if lowered == "fp32"@ {
        Some(Quantization::Fp32)
    } else {
        None
    }
}

/// The granularity named by a lower-cased setting.
pub open spec fn granularity_named(lowered: Seq<char>) -> Option<Granularity> {
    if lowered == "token"@ {
        Some(Granularity::Token)
    } else if lowered == "segment"@ {
        Some(Granularity::Segment)
    } else if lowered == "word"@ {
        Some(Granularity::Word)
    } else {
        None
    }
}

/// Reads an already lower-cased quantization setting.
pub fn quantization_from_lowered(lowered: String) -> (r: Result<Quantization, ModelError>)
    ensures
        match quantization_named(lowered@) {
            Some(q) => r == Ok::<Quantization, ModelError>(q),
            None => r matches Err(ModelError::UnsupportedQuantization(v)) && v@ == lowered@,
        },
{
    proof {
        reveal_strlit("int8");
        reveal_strlit("fp32");
    }
    if str_equal(lowered.as_str(), "int8") {
        Ok(Quantization::Int8)
    } else if str_equal(lowered.as_str(), "fp32") {
        Ok(Quantization::Fp32)
    } else {
        Err(ModelError::UnsupportedQuantization(lowered))
    }
}

/// Reads the quantization setting, ignoring case (`int8` or `fp32`).
pub fn parse_quantization(value: &str) -> (r: Result<Quantization, ModelError>)
    ensures
        match quantization_named(unicode_lowercase(value@)) {
            Some(q) => r == Ok::<Quantization, ModelError>(q),
            None => r matches Err(ModelError::UnsupportedQuantization(v)) && v@ == unicode_lowercase(
                value@,
            ),
        },
{
    quantization_from_lowered(to_lowercase(value))
}

/// Reads an already lower-cased granularity setting.
pub fn granularity_from_lowered(lowered: String) -> (r: Result<Granularity, ModelError>)
    ensures
        match granularity_named(lowered@) {
            Some(g) => r == Ok::<Granularity, ModelError>(g),
            None => r matches Err(ModelError::UnsupportedGranularity(v)) && v@ == lowered@,
        },
{
    proof {
        reveal_strlit("token");
        reveal_strlit("segment");
        reveal_strlit("word");
    }
    if str_equal(lowered.as_str(), "token") {
        Ok(Granularity::Token)
    } else if str_equal(lowered.as_str(), "segment") {
        Ok(Granularity::Segment)
    } else if str_equal(lowered.as_str(), "word") {
        Ok(Granularity::Word)
    } else {
        Err(ModelError::UnsupportedGranularity(lowered))
    }
}

/// Reads the optional granularity setting, ignoring case (`token`,
/// `segment` or `word`); no setting means no timestamps.
pub fn parse_granularity(value: &Option<String>) -> (r: Result<Option<Granularity>, ModelError>)
    ensures
        match value {
            None => r == Ok::<Option<Granularity>, ModelError>(None),
            Some(s) => match granularity_named(unicode_lowercase(s@)) {
                Some(g) => r == Ok::<Option<Granularity>, ModelError>(Some(g)),
                None => r matches Err(ModelError::UnsupportedGranularity(v)) && v@ == unicode_lowercase(
                    s@,
                ),
            },
        },
{
    match value {
        None => Ok(None),
        Some(s) => match granularity_from_lowered(to_lowercase(s.as_str())) {
            Ok(g) => Ok(Some(g)),
            Err(e) => Err(e),
        },
    }
}

/// Feature extractor shared by both weight formats.
pub const PREPROCESSOR_FILE: &'static str = "nemo128.onnx";
/// Token vocabulary.
pub const VOCAB_FILE: &'static str = "vocab.txt";
/// Model configuration (moved along with the model when present).
pub const MODEL_CONFIG_FILE: &'static str = "config.json";
/// Encoder, 8-bit weights.
pub const ENCODER_INT8_FILE: &'static str = "encoder-model.int8.onnx";
/// Decoder and joint network, 8-bit weights.
pub const DECODER_INT8_FILE: &'static str = "decoder_joint-model.int8.onnx";
/// Encoder, full-precision weights.
pub const ENCODER_FP32_FILE: &'static str = "encoder-model.onnx";
/// Decoder and joint network, full-precision weights.
pub const DECODER_FP32_FILE: &'static str = "decoder_joint-model.onnx";

/// What was found in a candidate model directory: whether it is a
/// directory, and which of the model's files exist in it.
#[derive(Debug, Clone, Copy)]
pub struct ModelFiles {
    pub is_dir: bool,
    pub preprocessor: bool,
    pub vocab: bool,
    pub encoder_int8: bool,
    pub decoder_int8: bool,
    pub encoder_fp32: bool,
    pub decoder_fp32: bool,
}

/// A directory holds a usable model: it is a directory with the feature
/// extractor, the vocabulary, and the encoder and decoder of the wanted
/// weight format.
pub open spec fn files_ready(f: ModelFiles, q: Quantization) -> bool {
    &&& f.is_dir
    &&& f.preprocessor
    &&& f.vocab
    &&& match q {
        Quantization::Int8 => f.encoder_int8 && f.decoder_int8,
        Quantization::Fp32 => f.encoder_fp32 && f.decoder_fp32,
    }
}

/// Executable form of [`files_ready`].
pub fn model_ready(f: &ModelFiles, q: Quantization) -> (r: bool)
    ensures
        r == files_ready(*f, q),
{
    if !f.is_dir {
        return false;
    }
    if !(f.preprocessor && f.vocab) {
        return false;
    }
    match q {
        Quantization::Int8 => f.encoder_int8 && f.decoder_int8,
        Quantization::Fp32 => f.encoder_fp32 && f.decoder_fp32,
    }
}

/// The status of a model, given what was found at its path and, when the
/// path has a parent, in the parent directory.
pub fn model_status(at_path: &ModelFiles, in_parent: Option<&ModelFiles>, q: Quantization) -> (r: ModelStatus)
    ensures
        r.ready == files_ready(*at_path, q),
        r.fallback_ready == (match in_parent {
            Some(p) => files_ready(*p, q),
            None => false,
        }),
{
    let ready = model_ready(at_path, q);
    let fallback_ready = match in_parent {
        Some(p) => model_ready(p, q),
        None => false,
    };
    ModelStatus { ready, fallback_ready }
}

/// The views of a list of file names.
pub open spec fn names_view(v: Seq<&'static str>) -> Seq<Seq<char>> {
    v.map_values(|s: &'static str| s@)
}

/// The files to move out of a directory: the whole 8-bit model when its
/// encoder and decoder are there, else the whole full-precision model when
/// those are there, else nothing.
pub open spec fn files_to_move(f: ModelFiles) -> Option<Seq<Seq<char>>> {
    if f.encoder_int8 && f.decoder_int8 {
        Some(
            seq![ENCODER_INT8_FILE@, DECODER_INT8_FILE@, PREPROCESSOR_FILE@, VOCAB_FILE@, MODEL_CONFIG_FILE@],
        )
    } else if f.encoder_fp32 && f.decoder_fp32 {
        Some(
            seq![ENCODER_FP32_FILE@, DECODER_FP32_FILE@, PREPROCESSOR_FILE@, VOCAB_FILE@, MODEL_CONFIG_FILE@],
        )
    } else {
        None
    }
}

/// Executable form of [`files_to_move`].
pub fn quantization_files_for_dir(f: &ModelFiles) -> (r: Option<Vec<&'static str>>)
    ensures
        match r {
            Some(v) => files_to_move(*f) == Some(names_view(v@)),
            None => files_to_move(*f) is None,
        },
{
    let encoder;
    let decoder;
    if f.encoder_int8 && f.decoder_int8 {
        encoder = ENCODER_INT8_FILE;
        decoder = DECODER_INT8_FILE;
    } else if f.encoder_fp32 && f.decoder_fp32 {
        encoder = ENCODER_FP32_FILE;
        decoder = DECODER_FP32_FILE;
    } else {
        return None;
    }
    let v = vec![encoder, decoder, PREPROCESSOR_FILE, VOCAB_FILE, MODEL_CONFIG_FILE];
    assert(names_view(v@) =~= seq![encoder@, decoder@, PREPROCESSOR_FILE@, VOCAB_FILE@, MODEL_CONFIG_FILE@]);
    Some(v)
}

/// Where the making-available of a model stands.
#[derive(Clone, Copy, Debug, PartialEq, Eq, Structural)]
pub enum EnsureStage {
    /// Nothing done yet.
    Start,
    /// The model directories exist.
    DirsCreated,
    /// Files were moved down from the parent directory before any download.
    MovedFromParent,
    /// The archive was downloaded and unpacked at the model path.
    Downloaded,
    /// Files were moved down from the parent directory after the download.
    MovedAfterDownload,
}

/// What to do next to make the model available.
#[derive(Debug)]
pub enum EnsureAction {
    /// The model is ready.
    Done,
    /// Give up with this error.
    Fail(ModelError),
    /// Create the parent directory and the model directory.
    CreateDirs,
    /// Move the model's files from the parent directory to the model path.
    MoveFromParent,
    /// Download the archive from this location and unpack it at the model
    /// path.
    Download(String),
}

/// The view of an action: which one, with its text.
pub open spec fn action_view(a: EnsureAction) -> (int, Seq<char>) {
    match a {
        EnsureAction::Done => (0, Seq::empty()),
        EnsureAction::Fail(ModelError::MissingDownloadUrl) => (1, Seq::empty()),
        EnsureAction::Fail(ModelError::InvalidModelPath) => (2, Seq::empty()),
        EnsureAction::Fail(ModelError::FilesMissing(p)) => (3, p@),
        EnsureAction::Fail(_) => (4, Seq::empty()),
        EnsureAction::CreateDirs => (5, Seq::empty()),
        EnsureAction::MoveFromParent => (6, Seq::empty()),
        EnsureAction::Download(u) => (7, u@),
    }
}

/// The next step and the stage after it, given what the checks found: the
/// model complete at its path (`ready`) and in the parent directory
/// (`parent_ready`).
pub open spec fn ensure_next(
    stage: EnsureStage,
    model_path: Seq<char>,
    download_url: Option<Seq<char>>,
    ready: bool,
    parent_ready: bool,
) -> ((int, Seq<char>), EnsureStage) {
    let download = match download_url {
        Some(u) => (7int, u),
        None => (1int, Seq::empty()),
    };
    match stage {
        EnsureStage::Start => if ready {
            ((0, Seq::empty()), stage)
        } else if download_url is None {
            ((1, Seq::empty()), stage)
        } else if std_path_parent(model_path) is None {
            ((2, Seq::empty()), stage)
        } else {
            ((5, Seq::empty()), EnsureStage::DirsCreated)
        },
        EnsureStage::DirsCreated => if parent_ready {
            ((6, Seq::empty()), EnsureStage::MovedFromParent)
        } else {
            (download, EnsureStage::Downloaded)
        },
        EnsureStage::MovedFromParent => if ready {
            ((0, Seq::empty()), stage)
        } else {
            (download, EnsureStage::Downloaded)
        },
        EnsureStage::Downloaded => if ready {
            ((0, Seq::empty()), stage)
        } else if parent_ready {
            ((6, Seq::empty()), EnsureStage::MovedAfterDownload)
        } else {
            ((3, model_path), stage)
        },
        EnsureStage::MovedAfterDownload => if ready {
            ((0, Seq::empty()), stage)
        } else {
            ((3, model_path), stage)
        },
    }
}

fn download_action(url: &Option<String>) -> (a: EnsureAction)
    ensures
        action_view(a) == (match url {
            Some(u) => (7int, u@),
            None => (1int, Seq::<char>::empty()),
        }),
{
    match url {
        Some(u) => EnsureAction::Download(u.clone()),
        None => EnsureAction::Fail(ModelError::MissingDownloadUrl),
    }
}

/// Decides the next step towards an available model, from the stage
/// reached and what the checks of the model path and its parent found.
pub fn ensure_model_step(stage: EnsureStage, cfg: &TranscriptionConfig, ready: bool, parent_ready: bool) -> (r: (
    EnsureAction,
    EnsureStage,
))
    ensures
        (action_view(r.0), r.1) == ensure_next(
            stage,
            cfg.model_path@,
            crate::dirs::opt_view(cfg.download_url),
            ready,
            parent_ready,
        ),
        r.0 is Done ==> ready,
        (!ready && !parent_ready && cfg.download_url is Some && (stage == EnsureStage::DirsCreated || stage
            == EnsureStage::MovedFromParent)) ==> {
            &&& r.0 matches EnsureAction::Download(u) && u@ == cfg.download_url->0@
            &&& r.1 == EnsureStage::Downloaded
        },
{
    match stage {
        EnsureStage::Start => {
            if ready {
                (EnsureAction::Done, stage)
            } else if cfg.download_url.is_none() {
                (EnsureAction::Fail(ModelError::MissingDownloadUrl), stage)
            } else if parent(cfg.model_path.as_str()).is_none() {
                (EnsureAction::Fail(ModelError::InvalidModelPath), stage)
            } else {
                (EnsureAction::CreateDirs, EnsureStage::DirsCreated)
            }
        },
        EnsureStage::DirsCreated => {
            if parent_ready {
                (EnsureAction::MoveFromParent, EnsureStage::MovedFromParent)
            } else {
                (download_action(&cfg.download_url), EnsureStage::Downloaded)
            }
        },
        EnsureStage::MovedFromParent => {
            if ready {
                (EnsureAction::Done, stage)
            } else {
                (download_action(&cfg.download_url), EnsureStage::Downloaded)
            }
        },
        EnsureStage::Downloaded => {
            if ready {
                (EnsureAction::Done, stage)
            } else if parent_ready {
                (EnsureAction::MoveFromParent, EnsureStage::MovedAfterDownload)
            } else {
                (EnsureAction::Fail(ModelError::FilesMissing(cfg.model_path.clone())), stage)
            }
        },
        EnsureStage::MovedAfterDownload => {
            if ready {
                (EnsureAction::Done, stage)
            } else {
                (EnsureAction::Fail(ModelError::FilesMissing(cfg.model_path.clone())), stage)
            }
        },
    }
}

/// The rank of a stage: how far the making-available has come.
pub open spec fn stage_rank(s: EnsureStage) -> int {
    match s {
        EnsureStage::Start => 0,
        EnsureStage::DirsCreated => 1,
        EnsureStage::MovedFromParent => 2,
        EnsureStage::Downloaded => 3,
        EnsureStage::MovedAfterDownload => 4,
    }
}

/// Making a model available always ends: every step that does work moves
/// to a later stage, and a step that does none (done or failed) is final;
/// a model already complete at its path is never downloaded.
pub proof fn lemma_ensure_steps_advance(
    stage: EnsureStage,
    model_path: Seq<char>,
    download_url: Option<Seq<char>>,
    ready: bool,
    parent_ready: bool,
)
    ensures
        ({
            let (a, next) = ensure_next(stage, model_path, download_url, ready, parent_ready);
            &&& (a.0 == 5 || a.0 == 6 || a.0 == 7) ==> stage_rank(next) > stage_rank(stage)
            &&& 0 <= a.0 <= 7 && a.0 != 4
            &&& (stage == EnsureStage::Start && ready) ==> a.0 == 0
        }),
{
}

/// A model is reported ready only when the last check found it complete at
/// its path, and then nothing more is done; and when the model is found
/// neither at its path nor in the parent directory, a model with a download
/// location is downloaded from it once the directories exist, or once
/// moving from the parent did not make it complete.
pub proof fn lemma_ensure_done_only_when_ready(
    stage: EnsureStage,
    model_path: Seq<char>,
    download_url: Option<Seq<char>>,
    ready: bool,
    parent_ready: bool,
)
    ensures
        ({
            let (a, next) = ensure_next(stage, model_path, download_url, ready, parent_ready);
            &&& a == action_view(EnsureAction::Done) ==> ready && next == stage
            &&& (!ready && !parent_ready && download_url is Some && (stage == EnsureStage::DirsCreated
                || stage == EnsureStage::MovedFromParent)) ==> {
                &&& a.0 == action_view(EnsureAction::Download(arbitrary())).0
                &&& a.1 == download_url->0
                &&& next == EnsureStage::Downloaded
            }
            &&& (!ready && download_url is None && stage == EnsureStage::Start) ==> a == action_view(
                EnsureAction::Fail(ModelError::MissingDownloadUrl),
            )
        }),
{
}

/// The text of a model error.
pub open spec fn model_error_text(e: ModelError) -> Seq<char> {
    match e {
        ModelError::UnsupportedQuantization(v) => "unsupported quantization: "@ + v@,
        ModelError::UnsupportedGranularity(v) => "unsupported timestamp_granularity: "@ + v@,
        ModelError::MissingDownloadUrl => "model missing and no download_url configured"@,
        ModelError::InvalidModelPath => "invalid model path"@,
        ModelError::FilesMissing(p) => "model download completed but files are missing at "@ + p@,
    }
}

impl ModelError {
    /// The error's text.
    pub fn message(&self) -> (r: String)
        ensures
            r@ == model_error_text(*self),
    {
        let (head, tail) = match self {
            ModelError::UnsupportedQuantization(v) => ("unsupported quantization: ", v.as_str()),
            ModelError::UnsupportedGranularity(v) => ("unsupported timestamp_granularity: ", v.as_str()),
            ModelError::MissingDownloadUrl => ("model missing and no download_url configured", ""),
            ModelError::InvalidModelPath => ("invalid model path", ""),
            ModelError::FilesMissing(p) => ("model download completed but files are missing at ", p.as_str()),
        };
        let mut s = String::from_str(head);
        s.append(tail);
        proof {
            reveal_strlit("");
            assert(model_error_text(*self) == head@ + tail@);
        }
        s
    }
}

} // verus!
