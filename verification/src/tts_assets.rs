//! The text-to-speech helper's remaining decisions: the steps that put a
//! backend's assets and the Piper runtime in place, what the built-in
//! Kokoro engine is given, where file output goes, the diagnostics and
//! speaker listings, and the text of its errors.
use vstd::prelude::*;
use crate::config::TtsBackendConfig;
use crate::cli::{bool_string, keyed};
use crate::dirs::opt_view;
use crate::text::{bool_text, str_equal};
use crate::json::{json_parse, json_view, parse_json, JsonValue, JsonValueView};
use crate::paths::path_join;
use crate::tts::{
    kokoro_voice_named, parse_kokoro_voice, piper_runtime_bin, piper_runtime_paths_in, piper_runtime_root,
    AssetPlan, Engine, KokoroVoice, OutputMode, TtsError, DEFAULT_KOKORO_VOICE,
};

verus! {

/// The name of an engine as the diagnostics print it.
pub open spec fn engine_text(e: Engine) -> Seq<char> {
    match e {
        Engine::Piper => "Piper"@,
        Engine::Kokoro => "Kokoro"@,
    }
}

/// The name of an output mode as the diagnostics print it.
pub open spec fn output_mode_text(m: OutputMode) -> Seq<char> {
    match m {
        OutputMode::Pipewire => "Pipewire"@,
        OutputMode::File => "File"@,
    }
}

/// Executable form of [`engine_text`].
pub fn engine_name(e: Engine) -> (r: &'static str)
    ensures
        r@ == engine_text(e),
{
    match e {
        Engine::Piper => "Piper",
        Engine::Kokoro => "Kokoro",
    }
}

/// Executable form of [`output_mode_text`].
pub fn output_mode_name(m: OutputMode) -> (r: &'static str)
    ensures
        r@ == output_mode_text(m),
{
    match m {
        OutputMode::Pipewire => "Pipewire",
        OutputMode::File => "File",
    }
}

/// The text of an error of the text-to-speech helper.
pub open spec fn tts_error_text(e: TtsError) -> Seq<char> {
    match e {
        TtsError::UnsupportedEngine { value } => "unsupported tts engine: "@ + value@,
        TtsError::UnsupportedOutputMode { value } => "unsupported tts output_mode: "@ + value@,
        TtsError::UnsupportedKokoroVoice { value } => "unsupported kokoro voice '"@ + value@
            + "'; supported: af_bella, af_sky, af_nova, am_michael, am_adam"@,
        TtsError::NoText => "no text provided (use --text or pipe text on stdin)"@,
        TtsError::MissingModelPath => "tts backend requires model_path after asset setup"@,
        TtsError::MissingVoicesPath => "kokoro backend requires voices_path after asset setup"@,
        TtsError::EmptyCommand { engine } => "tts backend command is empty; configure [tts."@
            + engine_text(engine) + "] command"@,
        TtsError::CommandParse => "failed to parse backend command"@,
        TtsError::EmptyInvocation => "backend command resolved to empty invocation"@,
        TtsError::MissingOutputPath => "--output file requires --output-path or tts.output_path in config"@,
        TtsError::NoDataDir => "failed to resolve data directory"@,
        TtsError::MissingModelUrl => "missing model and no model_url configured"@,
        TtsError::MissingVoiceUrl => "kokoro voices missing and no voice_url configured"@,
        TtsError::MissingKokoroModelPath => "kokoro backend requires model_path after asset setup"@,
        TtsError::NoPiperRuntime { arch } => "no piper runtime configured for architecture '"@
            + arch@ + "' (set tts.piper.runtime_path or tts.piper.runtime_url)"@,
        TtsError::PiperRuntimeMissing { path } => "piper runtime download completed but binary not found at "@
            + path@,
        TtsError::MissingPiperModel => "missing piper model path"@,
        TtsError::MissingPiperMetadata { path } => "missing piper metadata config at "@ + path@
            + " (expected alongside model)"@,
    }
}

fn three(a: &str, b: &str, c: &str) -> (r: String)
    ensures
        r@ == a@ + b@ + c@,
{
    let mut s = String::from_str(a);
    s.append(b);
    s.append(c);
    s
}

impl TtsError {
    /// The error's text.
    pub fn message(&self) -> (r: String)
        ensures
            r@ == tts_error_text(*self),
    {
        proof {
            reveal_strlit("");
        }
        match self {
            TtsError::UnsupportedEngine { value } => three("unsupported tts engine: ", value.as_str(), ""),
            TtsError::UnsupportedOutputMode { value } => three("unsupported tts output_mode: ", value.as_str(), ""),
            TtsError::UnsupportedKokoroVoice { value } => three(
                "unsupported kokoro voice '",
                value.as_str(),
                "'; supported: af_bella, af_sky, af_nova, am_michael, am_adam",
            ),
            TtsError::NoText => three("no text provided (use --text or pipe text on stdin)", "", ""),
            TtsError::MissingModelPath => three("tts backend requires model_path after asset setup", "", ""),
            TtsError::MissingVoicesPath => three("kokoro backend requires voices_path after asset setup", "", ""),
            TtsError::EmptyCommand { engine } => three(
                "tts backend command is empty; configure [tts.",
                engine_name(*engine),
                "] command",
            ),
            TtsError::CommandParse => three("failed to parse backend command", "", ""),
            TtsError::EmptyInvocation => three("backend command resolved to empty invocation", "", ""),
            TtsError::MissingOutputPath => three(
                "--output file requires --output-path or tts.output_path in config",
                "",
                "",
            ),
            TtsError::NoDataDir => three("failed to resolve data directory", "", ""),
            TtsError::MissingModelUrl => three("missing model and no model_url configured", "", ""),
            TtsError::MissingVoiceUrl => three("kokoro voices missing and no voice_url configured", "", ""),
            TtsError::MissingKokoroModelPath => three("kokoro backend requires model_path after asset setup", "", ""),
            TtsError::NoPiperRuntime { arch } => three(
                "no piper runtime configured for architecture '",
                arch.as_str(),
                "' (set tts.piper.runtime_path or tts.piper.runtime_url)",
            ),
            TtsError::PiperRuntimeMissing { path } => three(
                "piper runtime download completed but binary not found at ",
                path.as_str(),
                "",
            ),
            TtsError::MissingPiperModel => three("missing piper model path", "", ""),
            TtsError::MissingPiperMetadata { path } => three(
                "missing piper metadata config at ",
                path.as_str(),
                " (expected alongside model)",
            ),
        }
    }
}

/// One step of putting a backend's assets in place.
#[derive(Debug)]
pub enum AssetAction {
    /// Download `url` to `dest`.
    Download { url: String, dest: String },
    /// Copy the file `from` to `to`.
    Copy { from: String, to: String },
    /// Stop with this error.
    Fail(TtsError),
}

/// The view of an asset step: its kind (download, copy, or the error of a
/// failure) and its two texts.
pub enum AssetStep {
    Download(Seq<char>, Seq<char>),
    Copy(Seq<char>, Seq<char>),
    MissingModelUrl,
    MissingVoiceUrl,
    OtherFailure,
}

/// The view of an asset action.
pub open spec fn asset_step(a: AssetAction) -> AssetStep {
    match a {
        AssetAction::Download { url, dest } => AssetStep::Download(url@, dest@),
        AssetAction::Copy { from, to } => AssetStep::Copy(from@, to@),
        AssetAction::Fail(TtsError::MissingModelUrl) => AssetStep::MissingModelUrl,
        AssetAction::Fail(TtsError::MissingVoiceUrl) => AssetStep::MissingVoiceUrl,
        AssetAction::Fail(_) => AssetStep::OtherFailure,
    }
}

/// Which asset of a plan is considered next.
#[derive(Clone, Copy, Debug, PartialEq, Eq, Structural)]
pub enum AssetStage {
    /// The model.
    Model,
    /// Piper's metadata file.
    PiperConfig,
    /// Kokoro's voice pack.
    Voices,
    /// Nothing is left.
    Done,
}

/// The asset stage that follows `s`.
pub open spec fn next_stage(s: AssetStage) -> AssetStage {
    match s {
        AssetStage::Model => AssetStage::PiperConfig,
        AssetStage::PiperConfig => AssetStage::Voices,
        AssetStage::Voices => AssetStage::Done,
        AssetStage::Done => AssetStage::Done,
    }
}

/// The file whose existence decides the step of a stage.
pub open spec fn stage_target(plan: AssetPlan, s: AssetStage) -> Option<Seq<char>> {
    match s {
        AssetStage::Model => Some(plan.model_path@),
        AssetStage::PiperConfig => opt_view(plan.piper_config_path),
        AssetStage::Voices => opt_view(plan.voices_path),
        AssetStage::Done => None,
    }
}

/// Executable form of [`stage_target`].
pub fn asset_target(plan: &AssetPlan, stage: AssetStage) -> (r: Option<String>)
    ensures
        opt_view(r) == stage_target(*plan, stage),
{
    match stage {
        AssetStage::Model => Some(plan.model_path.clone()),
        AssetStage::PiperConfig => match &plan.piper_config_path {
            Some(c) => Some(c.clone()),
            None => None,
        },
        AssetStage::Voices => match &plan.voices_path {
            Some(v) => Some(v.clone()),
            None => None,
        },
        AssetStage::Done => None,
    }
}

/// The step of a stage, given whether its file exists now (`exists`) and
/// whether the fallback of Piper's metadata exists (`fallback_exists`):
/// a missing model is downloaded (failing without a `model_url`); missing
/// Piper metadata is downloaded from `config_url`, else copied from the
/// default location when that file exists; a missing Kokoro voice pack is
/// downloaded (failing without a `voice_url`).  `None` when nothing is to
/// be done.
pub open spec fn stage_step(plan: AssetPlan, s: AssetStage, exists: bool, fallback_exists: bool) -> Option<
    AssetStep,
> {
    let b = plan.backend;
    match s {
        AssetStage::Model => if exists {
            None
        } else {
            match b.model_url {
                Some(u) => Some(AssetStep::Download(u@, plan.model_path@)),
                None => Some(AssetStep::MissingModelUrl),
            }
        },
        AssetStage::PiperConfig => match plan.piper_config_path {
            Some(c) => if exists {
                None
            } else {
                match b.config_url {
                    Some(u) => Some(AssetStep::Download(u@, c@)),
                    None => match plan.piper_config_fallback {
                        Some(f) => if fallback_exists {
                            Some(AssetStep::Copy(f@, c@))
                        } else {
                            None
                        },
                        None => None,
                    },
                }
            },
            None => None,
        },
        AssetStage::Voices => match plan.voices_path {
            Some(v) => if exists {
                None
            } else {
                match b.voice_url {
                    Some(u) => Some(AssetStep::Download(u@, v@)),
                    None => Some(AssetStep::MissingVoiceUrl),
                }
            },
            None => None,
        },
        AssetStage::Done => None,
    }
}

/// The view of an optional asset action.
pub open spec fn opt_asset_step(a: Option<AssetAction>) -> Option<AssetStep> {
    match a {
        Some(x) => Some(asset_step(x)),
        None => None,
    }
}

/// The step of one stage of putting a plan's assets in place, and the stage
/// after it.  The caller checks the stage's file ([`stage_target`]) just
/// before, so a file written by an earlier step is seen.
pub fn asset_action(plan: &AssetPlan, stage: AssetStage, exists: bool, fallback_exists: bool) -> (r: (
    Option<AssetAction>,
    AssetStage,
))
    ensures
        opt_asset_step(r.0) == stage_step(*plan, stage, exists, fallback_exists),
        r.1 == next_stage(stage),
{
    let b = &plan.backend;
    let action = match stage {
        AssetStage::Model => {
            if exists {
                None
            } else {
                match &b.model_url {
                    Some(u) => Some(AssetAction::Download { url: u.clone(), dest: plan.model_path.clone() }),
                    None => Some(AssetAction::Fail(TtsError::MissingModelUrl)),
                }
            }
        },
        AssetStage::PiperConfig => match &plan.piper_config_path {
            Some(c) => {
                if exists {
                    None
                } else {
                    match &b.config_url {
                        Some(u) => Some(AssetAction::Download { url: u.clone(), dest: c.clone() }),
                        None => match &plan.piper_config_fallback {
                            Some(f) => {
                                if fallback_exists {
                                    Some(AssetAction::Copy { from: f.clone(), to: c.clone() })
                                } else {
                                    None
                                }
                            },
                            None => None,
                        },
                    }
                }
            },
            None => None,
        },
        AssetStage::Voices => match &plan.voices_path {
            Some(v) => {
                if exists {
                    None
                } else {
                    match &b.voice_url {
                        Some(u) => Some(AssetAction::Download { url: u.clone(), dest: v.clone() }),
                        None => Some(AssetAction::Fail(TtsError::MissingVoiceUrl)),
                    }
                }
            },
            None => None,
        },
        AssetStage::Done => None,
    };
    let next = match stage {
        AssetStage::Model => AssetStage::PiperConfig,
        AssetStage::PiperConfig => AssetStage::Voices,
        AssetStage::Voices => AssetStage::Done,
        AssetStage::Done => AssetStage::Done,
    };
    (action, next)
}

/// The rank of an asset stage.
pub open spec fn asset_stage_rank(s: AssetStage) -> int {
    match s {
        AssetStage::Model => 0,
        AssetStage::PiperConfig => 1,
        AssetStage::Voices => 2,
        AssetStage::Done => 3,
    }
}

/// Putting assets in place ends: each stage is followed by a later one
/// until `Done`, which does nothing; the only failures are a missing model
/// without a `model_url` and a missing voice pack without a `voice_url`;
/// and nothing is fetched for a file that exists.
pub proof fn lemma_asset_stages_advance(plan: AssetPlan, s: AssetStage, exists: bool, fallback_exists: bool)
    ensures
        s != AssetStage::Done ==> asset_stage_rank(next_stage(s)) == asset_stage_rank(s) + 1,
        s == AssetStage::Done ==> stage_step(plan, s, exists, fallback_exists) is None,
        exists ==> stage_step(plan, s, exists, fallback_exists) is None,
        stage_step(plan, s, exists, fallback_exists) matches Some(AssetStep::MissingModelUrl) ==> s
            == AssetStage::Model && plan.backend.model_url is None,
        stage_step(plan, s, exists, fallback_exists) matches Some(AssetStep::MissingVoiceUrl) ==> s
            == AssetStage::Voices && plan.backend.voice_url is None,
        !(stage_step(plan, s, exists, fallback_exists) matches Some(AssetStep::OtherFailure)),
{
}

/// Where the embedded Piper runtime comes from.
#[derive(Debug)]
pub enum RuntimeStep {
    /// Run the executable at this path.
    Use(String),
    /// Download the runtime archive from `url` and unpack it into `root`.
    Download { url: String, root: String },
    /// Stop with this error.
    Fail(TtsError),
}

/// The view of a runtime step.
pub enum RuntimeChoice {
    Use(Seq<char>),
    Download(Seq<char>, Seq<char>),
    NoDataDir,
    NoRuntime(Seq<char>),
    OtherFailure,
}

/// The view of a runtime step.
pub open spec fn runtime_choice_of(s: RuntimeStep) -> RuntimeChoice {
    match s {
        RuntimeStep::Use(p) => RuntimeChoice::Use(p@),
        RuntimeStep::Download { url, root } => RuntimeChoice::Download(url@, root@),
        RuntimeStep::Fail(TtsError::NoDataDir) => RuntimeChoice::NoDataDir,
        RuntimeStep::Fail(TtsError::NoPiperRuntime { arch }) => RuntimeChoice::NoRuntime(arch@),
        RuntimeStep::Fail(_) => RuntimeChoice::OtherFailure,
    }
}

/// Where the embedded Piper runtime comes from: the configured runtime when
/// it exists; else the one unpacked under the data directory when its
/// executable exists; else a download of the configured runtime archive;
/// failing without a data directory or a runtime for this architecture.
pub open spec fn runtime_choice(
    cfg: TtsBackendConfig,
    runtime_exists: bool,
    data_dir: Option<Seq<char>>,
    bin_exists: bool,
    arch: Seq<char>,
) -> RuntimeChoice {
    if cfg.runtime_path is Some && runtime_exists {
        RuntimeChoice::Use(cfg.runtime_path->0@)
    } else {
        match data_dir {
            None => RuntimeChoice::NoDataDir,
            Some(d) => if bin_exists {
                RuntimeChoice::Use(piper_runtime_bin(d))
            } else {
                match cfg.runtime_url {
                    Some(u) => RuntimeChoice::Download(u@, piper_runtime_root(d)),
                    None => RuntimeChoice::NoRuntime(arch),
                }
            },
        }
    }
}

/// Decides where the embedded Piper runtime comes from, given whether the
/// configured runtime exists, the data directory, whether the unpacked
/// executable exists there, and the machine's architecture.
pub fn piper_runtime_step(
    cfg: &TtsBackendConfig,
    runtime_exists: bool,
    data_dir: Option<&str>,
    bin_exists: bool,
    arch: &str,
) -> (r: RuntimeStep)
    ensures
        runtime_choice_of(r) == runtime_choice(*cfg, runtime_exists, crate::dirs::opt_str_view(data_dir), bin_exists, arch@),
{
    if let Some(p) = &cfg.runtime_path {
        if runtime_exists {
            return RuntimeStep::Use(p.clone());
        }
    }
    let d = match data_dir {
        Some(d) => d,
        None => return RuntimeStep::Fail(TtsError::NoDataDir),
    };
    let (root, bin) = piper_runtime_paths_in(d);
    if bin_exists {
        return RuntimeStep::Use(bin);
    }
    match &cfg.runtime_url {
        Some(u) => RuntimeStep::Download { url: u.clone(), root },
        None => RuntimeStep::Fail(TtsError::NoPiperRuntime { arch: String::from_str(arch) }),
    }
}

/// After the runtime archive was unpacked: its executable, or the error
/// that it is not there.
pub fn piper_runtime_after_download(data_dir: &str, bin_exists: bool) -> (r: Result<String, TtsError>)
    ensures
        match r {
            Ok(p) => bin_exists && p@ == piper_runtime_bin(data_dir@),
            Err(TtsError::PiperRuntimeMissing { path }) => !bin_exists && path@ == piper_runtime_bin(data_dir@),
            Err(_) => false,
        },
{
    let (_root, bin) = piper_runtime_paths_in(data_dir);
    if bin_exists {
        Ok(bin)
    } else {
        Err(TtsError::PiperRuntimeMissing { path: bin })
    }
}

/// What the built-in Kokoro engine is given: the model, the voice pack,
/// and the voice (`af_bella` unless one is configured).
pub fn kokoro_inputs(cfg: &TtsBackendConfig) -> (r: Result<(String, String, KokoroVoice), TtsError>)
    ensures
        match r {
            Ok((m, v, voice)) => cfg.model_path == Some(m) && cfg.voices_path == Some(v) && kokoro_voice_named(
                match cfg.voice {
                    Some(n) => n@,
                    None => DEFAULT_KOKORO_VOICE@,
                },
            ) == Some(voice),
            Err(TtsError::MissingKokoroModelPath) => cfg.model_path is None,
            Err(TtsError::MissingVoicesPath) => cfg.model_path is Some && cfg.voices_path is None,
            Err(TtsError::UnsupportedKokoroVoice { value }) => cfg.model_path is Some && cfg.voices_path is Some
                && kokoro_voice_named(
                match cfg.voice {
                    Some(n) => n@,
                    None => DEFAULT_KOKORO_VOICE@,
                },
            ) is None,
            Err(_) => false,
        },
{
    let model = match &cfg.model_path {
        Some(m) => m.clone(),
        None => return Err(TtsError::MissingKokoroModelPath),
    };
    let voices = match &cfg.voices_path {
        Some(v) => v.clone(),
        None => return Err(TtsError::MissingVoicesPath),
    };
    let name = match &cfg.voice {
        Some(n) => n.as_str(),
        None => DEFAULT_KOKORO_VOICE,
    };
    match parse_kokoro_voice(name) {
        Ok(voice) => Ok((model, voices, voice)),
        Err(e) => Err(e),
    }
}

/// Where file output is written: the command-line path, else the
/// configured one.
pub fn output_destination(cli: Option<String>, configured: Option<String>) -> (r: Result<String, TtsError>)
    ensures
        match r {
            Ok(p) => p@ == (match cli {
                Some(c) => c@,
                None => configured->0@,
            }) && (cli is Some || configured is Some),
            Err(TtsError::MissingOutputPath) => cli is None && configured is None,
            Err(_) => false,
        },
{
    match cli {
        Some(c) => Ok(c),
        None => match configured {
            Some(c) => Ok(c),
            None => Err(TtsError::MissingOutputPath),
        },
    }
}

/// The speakers of a Piper voice map whose id is an integer, in map order.
pub open spec fn numbered_speakers(map: Seq<(Seq<char>, Option<i64>)>) -> Seq<(i64, Seq<char>)>
    decreases map.len(),
{
    if map.len() == 0 {
        Seq::empty()
    } else {
        let rest = numbered_speakers(map.drop_last());
        match map.last().1 {
            Some(id) => rest.push((id, map.last().0)),
            None => rest,
        }
    }
}

/// `x` placed into `s` after every element whose id is not greater, as a
/// stable insertion sort places it.
pub open spec fn insert_by_id(s: Seq<(i64, Seq<char>)>, x: (i64, Seq<char>)) -> Seq<(i64, Seq<char>)>
    decreases s.len(),
{
    if s.len() == 0 || s.last().0 <= x.0 {
        s.push(x)
    } else {
        insert_by_id(s.drop_last(), x).push(s.last())
    }
}

/// The stable sort of speakers by id (equal ids keep their order).
pub open spec fn sort_by_id(s: Seq<(i64, Seq<char>)>) -> Seq<(i64, Seq<char>)>
    decreases s.len(),
{
    if s.len() == 0 {
        Seq::empty()
    } else {
        insert_by_id(sort_by_id(s.drop_last()), s.last())
    }
}

/// Whether speakers are in order of id.
pub open spec fn sorted_by_id(s: Seq<(i64, Seq<char>)>) -> bool {
    forall|i: int, j: int| 0 <= i <= j < s.len() ==> s[i].0 <= s[j].0
}

/// A signed integer in decimal.
pub open spec fn signed_decimal(n: int) -> Seq<char> {
    if n < 0 {
        "-"@ + crate::text::decimal((-n) as nat)
    } else {
        crate::text::decimal(n as nat)
    }
}

/// What listing a Piper voice's speakers prints: each numbered speaker as
/// `<id>\t<name>` in order of id, or a note that the voice has one speaker.
pub open spec fn speaker_text(map: Option<Seq<(Seq<char>, Option<i64>)>>) -> Seq<Seq<char>> {
    match map {
        None => seq!["single-speaker model (no speaker_id_map)"@],
        Some(m) => {
            let sorted = sort_by_id(numbered_speakers(m));
            if sorted.len() == 0 {
                seq!["single-speaker model (speaker_id_map empty)"@]
            } else {
                Seq::new(sorted.len(), |i: int| signed_decimal(sorted[i].0 as int) + "\t"@ + sorted[i].1)
            }
        },
    }
}

/// The view of a speaker map.
pub open spec fn speaker_map_view(m: Seq<(String, Option<i64>)>) -> Seq<(Seq<char>, Option<i64>)> {
    m.map_values(|e: (String, Option<i64>)| (e.0@, e.1))
}

/// The views of speakers.
pub open spec fn speakers_view(m: Seq<(i64, String)>) -> Seq<(i64, Seq<char>)> {
    m.map_values(|e: (i64, String)| (e.0, e.1@))
}

/// Inserting keeps the elements and puts the new one after all elements
/// with a smaller or equal id, before the larger ones.
proof fn lemma_insert_by_id(s: Seq<(i64, Seq<char>)>, x: (i64, Seq<char>), j: int)
    requires
        0 <= j <= s.len(),
        j == 0 || s[j - 1].0 <= x.0,
        forall|k: int| j <= k < s.len() ==> #[trigger] s[k].0 > x.0,
    ensures
        insert_by_id(s, x) == s.take(j).push(x) + s.skip(j),
    decreases s.len(),
{
    if s.len() == 0 || s.last().0 <= x.0 {
        assert(j == s.len());
        assert(s.take(j) =~= s);
        assert(s.skip(j) =~= Seq::<(i64, Seq<char>)>::empty());
        assert(s.push(x) =~= s.take(j).push(x) + s.skip(j));
    } else {
        let t = s.drop_last();
        lemma_insert_by_id(t, x, j);
        assert(t.take(j) =~= s.take(j));
        assert(t.skip(j).push(s.last()) =~= s.skip(j));
        assert((t.take(j).push(x) + t.skip(j)).push(s.last()) =~= s.take(j).push(x) + s.skip(j));
    }
}

/// Sorting speakers by id orders them and keeps every speaker, each as
/// often as it occurs.
pub proof fn lemma_sort_by_id_sorted(s: Seq<(i64, Seq<char>)>)
    ensures
        sorted_by_id(sort_by_id(s)),
        sort_by_id(s).len() == s.len(),
        sort_by_id(s).to_multiset() == s.to_multiset(),
    decreases s.len(),
{
    broadcast use vstd::seq_lib::to_multiset_build;
    if s.len() > 0 {
        let t = sort_by_id(s.drop_last());
        lemma_sort_by_id_sorted(s.drop_last());
        lemma_insert_sorted(t, s.last());
        lemma_insert_keeps_multiset(t, s.last());
        assert(s.drop_last().push(s.last()) =~= s);
    } else {
        assert(s.to_multiset() =~= vstd::multiset::Multiset::empty()) by {
            broadcast use vstd::seq_lib::group_to_multiset_ensures;
        }
        assert(Seq::<(i64, Seq<char>)>::empty().to_multiset() =~= vstd::multiset::Multiset::empty()) by {
            broadcast use vstd::seq_lib::group_to_multiset_ensures;
        }
    }
}

proof fn lemma_insert_keeps_multiset(s: Seq<(i64, Seq<char>)>, x: (i64, Seq<char>))
    ensures
        insert_by_id(s, x).to_multiset() == s.to_multiset().insert(x),
    decreases s.len(),
{
    broadcast use vstd::seq_lib::to_multiset_build;
    if s.len() == 0 || s.last().0 <= x.0 {
    } else {
        let t = s.drop_last();
        lemma_insert_keeps_multiset(t, x);
        assert(t.push(s.last()) =~= s);
        assert(t.to_multiset().insert(x).insert(s.last()) =~= t.to_multiset().insert(s.last()).insert(x));
    }
}

proof fn lemma_insert_sorted(s: Seq<(i64, Seq<char>)>, x: (i64, Seq<char>))
    requires
        sorted_by_id(s),
    ensures
        sorted_by_id(insert_by_id(s, x)),
        insert_by_id(s, x).len() == s.len() + 1,
        forall|i: int| 0 <= i < insert_by_id(s, x).len() ==> #[trigger] insert_by_id(s, x)[i] == x
            || s.contains(insert_by_id(s, x)[i]),
    decreases s.len(),
{
    if s.len() == 0 || s.last().0 <= x.0 {
        let r = s.push(x);
        assert forall|i: int, j: int| 0 <= i <= j < r.len() implies r[i].0 <= r[j].0 by {
            if j == s.len() as int && i < j {
                assert(s[i].0 <= s.last().0);
            }
        }
        assert forall|i: int| 0 <= i < r.len() implies #[trigger] r[i] == x || s.contains(r[i]) by {
            if i < s.len() {
                assert(r[i] == s[i]);
            }
        }
    } else {
        let t = s.drop_last();
        assert(sorted_by_id(t));
        lemma_insert_sorted(t, x);
        let u = insert_by_id(t, x);
        let r = u.push(s.last());
        assert forall|i: int| 0 <= i < r.len() implies #[trigger] r[i] == x || s.contains(r[i]) by {
            if i < u.len() {
                assert(u[i] == x || t.contains(u[i]));
                if u[i] != x {
                    let k = choose|k: int| 0 <= k < t.len() && t[k] == u[i];
                    assert(s[k] == u[i]);
                }
            } else {
                assert(s[s.len() - 1] == s.last());
            }
        }
        assert forall|i: int, j: int| 0 <= i <= j < r.len() implies r[i].0 <= r[j].0 by {
            if j == u.len() as int && i < j {
                assert(u[i] == x || t.contains(u[i]));
                if u[i] != x {
                    let k = choose|k: int| 0 <= k < t.len() && t[k] == u[i];
                    assert(s[k].0 <= s.last().0);
                }
            } else if j < u.len() {
            }
        }
    }
}

fn insert_speaker(v: &mut Vec<(i64, String)>, x: (i64, String))
    ensures
        speakers_view(final(v)@) == insert_by_id(speakers_view(old(v)@), (x.0, x.1@)),
{
    let ghost s = speakers_view(v@);
    let mut j: usize = v.len();
    while j > 0 && v[j - 1].0 > x.0
        invariant
            s == speakers_view(v@),
            j <= v@.len(),
            forall|k: int| j <= k < s.len() ==> #[trigger] s[k].0 > x.0,
        decreases j,
    {
        j = j - 1;
    }
    proof {
        if j > 0 {
            assert(s[j - 1].0 <= x.0);
        }
        lemma_insert_by_id(s, (x.0, x.1@), j as int);
    }
    v.insert(j, x);
    assert(speakers_view(v@) =~= s.take(j as int).push((x.0, x.1@)) + s.skip(j as int));
}

fn push_signed(out: &mut Vec<char>, n: i64)
    ensures
        final(out)@ == old(out)@ + signed_decimal(n as int),
{
    if n < 0 {
        out.push('-');
        let m: u128 = (0i128 - (n as i128)) as u128;
        crate::text::push_decimal(out, m);
        assert(seq!['-'] =~= "-"@) by {
            reveal_strlit("-");
        }
        assert(old(out)@.push('-') + crate::text::decimal(m as nat) =~= old(out)@ + ("-"@
            + crate::text::decimal(m as nat)));
    } else {
        crate::text::push_decimal(out, n as u128);
    }
}

/// Lists the speakers of a Piper voice from its `speaker_id_map` (names
/// with their ids where the id is an integer, in map order), or `None`
/// when the metadata has no such map.
pub fn speaker_lines(map: Option<Vec<(String, Option<i64>)>>) -> (r: Vec<String>)
    ensures
        crate::hooks::strings_view(r@) == speaker_text(match map {
            Some(m) => Some(speaker_map_view(m@)),
            None => None,
        }),
{
    let m = match map {
        None => {
            let r = vec![String::from_str("single-speaker model (no speaker_id_map)")];
            assert(crate::hooks::strings_view(r@) =~= speaker_text(None));
            return r;
        },
        Some(m) => m,
    };
    let ghost mv = speaker_map_view(m@);
    let mut sorted: Vec<(i64, String)> = Vec::new();
    let mut i: usize = 0;
    while i < m.len()
        invariant
            mv == speaker_map_view(m@),
            i <= m@.len(),
            speakers_view(sorted@) == sort_by_id(numbered_speakers(mv.take(i as int))),
        decreases m@.len() - i,
    {
        proof {
            let t = mv.take(i + 1);
            assert(t.drop_last() =~= mv.take(i as int));
            assert(t.last() == (m@[i as int].0@, m@[i as int].1));
        }
        if let Some(id) = m[i].1 {
            let ghost before = numbered_speakers(mv.take(i as int));
            insert_speaker(&mut sorted, (id, m[i].0.clone()));
            proof {
                assert(numbered_speakers(mv.take(i + 1)) == before.push((id, m@[i as int].0@)));
                assert(before.push((id, m@[i as int].0@)).drop_last() =~= before);
            }
        }
        i = i + 1;
    }
    assert(mv.take(m@.len() as int) =~= mv);
    let ghost sv = speakers_view(sorted@);
    if sorted.len() == 0 {
        let r = vec![String::from_str("single-speaker model (speaker_id_map empty)")];
        assert(crate::hooks::strings_view(r@) =~= speaker_text(Some(mv)));
        return r;
    }
    let mut r: Vec<String> = Vec::new();
    for k in 0..sorted.len()
        invariant
            sv == speakers_view(sorted@),
            r@.len() == k,
            forall|q: int| 0 <= q < k ==> (#[trigger] r@[q])@ == signed_decimal(sv[q].0 as int) + "\t"@ + sv[q].1,
    {
        let mut line: Vec<char> = Vec::new();
        push_signed(&mut line, sorted[k].0);
        line.push('\t');
        crate::text::push_str_chars(&mut line, sorted[k].1.as_str());
        proof {
            reveal_strlit("\t");
            assert(signed_decimal(sv[k as int].0 as int).push('\t') =~= signed_decimal(sv[k as int].0 as int) + "\t"@);
        }
        r.push(crate::text::string_of(line.as_slice()));
        assert(r@[k as int]@ =~= signed_decimal(sv[k as int].0 as int) + "\t"@ + sv[k as int].1);
    }
    assert(crate::hooks::strings_view(r@) =~= speaker_text(Some(mv)));
    r
}

/// The sentence the diagnostics use when no text is given.
pub const DOCTOR_SAMPLE_TEXT: &'static str = "This is a test sentence.";

/// What the helper's diagnostics report on.
#[derive(Debug)]
pub struct TtsDoctorFacts {
    pub config_path: String,
    pub engine: Engine,
    pub output_mode: OutputMode,
    /// The backend's configuration, with the command-line voice applied.
    pub backend: TtsBackendConfig,
    /// The configured model, else the default one.
    pub model_path: String,
    pub model_exists: bool,
    /// The configured voice pack, else the default one (Kokoro).
    pub voices_path: Option<String>,
    pub voices_exists: bool,
    pub runtime_exists: bool,
    /// The command-line text, else [`DOCTOR_SAMPLE_TEXT`].
    pub sample_text: String,
}

/// What the helper's diagnostics print before the Kokoro phonemes.
pub open spec fn tts_doctor_text(f: TtsDoctorFacts) -> Seq<Seq<char>> {
    seq![
        "config_path="@ + f.config_path@,
        "engine="@ + engine_text(f.engine),
        "output_mode="@ + output_mode_text(f.output_mode),
        "backend_command="@ + f.backend.command@,
        "model_path="@ + f.model_path@,
        "model_exists="@ + bool_text(f.model_exists),
    ] + (match f.voices_path {
        Some(v) => seq!["voices_path="@ + v@, "voices_exists="@ + bool_text(f.voices_exists)],
        None => Seq::empty(),
    }) + (match f.backend.runtime_path {
        Some(p) => seq!["runtime_path="@ + p@, "runtime_exists="@ + bool_text(f.runtime_exists)],
        None => Seq::empty(),
    }) + seq![
        "voice="@ + crate::tts::or_empty(f.backend.voice),
        "sample_text="@ + f.sample_text@,
    ] + (if f.engine == Engine::Kokoro {
        seq!["kokoro_normalized_text="@ + crate::tts::kokoro_text(f.sample_text@)]
    } else {
        Seq::empty()
    })
}

/// Executable form of [`tts_doctor_text`].
pub fn tts_doctor_lines(f: &TtsDoctorFacts) -> (r: Vec<String>)
    ensures
        crate::hooks::strings_view(r@) == tts_doctor_text(*f),
{
    let mut r: Vec<String> = Vec::new();
    r.push(keyed("config_path=", f.config_path.as_str()));
    r.push(keyed("engine=", engine_name(f.engine)));
    r.push(keyed("output_mode=", output_mode_name(f.output_mode)));
    r.push(keyed("backend_command=", f.backend.command.as_str()));
    r.push(keyed("model_path=", f.model_path.as_str()));
    r.push(keyed("model_exists=", bool_string(f.model_exists)));
    if let Some(v) = &f.voices_path {
        r.push(keyed("voices_path=", v.as_str()));
        r.push(keyed("voices_exists=", bool_string(f.voices_exists)));
    }
    if let Some(p) = &f.backend.runtime_path {
        r.push(keyed("runtime_path=", p.as_str()));
        r.push(keyed("runtime_exists=", bool_string(f.runtime_exists)));
    }
    let voice = match &f.backend.voice {
        Some(v) => v.as_str(),
        None => "",
    };
    proof {
        reveal_strlit("");
    }
    r.push(keyed("voice=", voice));
    r.push(keyed("sample_text=", f.sample_text.as_str()));
    if f.engine == Engine::Kokoro {
        let normalized = crate::tts::normalize_text_for_kokoro(f.sample_text.as_str());
        r.push(keyed("kokoro_normalized_text=", normalized.as_str()));
    }
    assert(crate::hooks::strings_view(r@) =~= tts_doctor_text(*f));
    r
}

/// The value of the first member named `key` of an object's members.
pub open spec fn json_member(members: Seq<(Seq<char>, JsonValueView)>, key: Seq<char>) -> Option<JsonValueView>
    decreases members.len(),
{
    if members.len() == 0 {
        None
    } else if members[0].0 == key {
        Some(members[0].1)
    } else {
        json_member(members.drop_first(), key)
    }
}

/// A JSON value as an `i64`, when it is an integer that fits.
pub open spec fn json_int(v: JsonValueView) -> Option<i64> {
    match v {
        JsonValueView::Int(i) => Some(i),
        _ => None,
    }
}

/// The speaker map of a Piper voice's metadata: the members of its
/// `speaker_id_map` object, each name with its id when the id is an
/// integer; nothing when the document is not an object or has no such
/// object.
pub open spec fn speaker_map_of(doc: JsonValueView) -> Option<Seq<(Seq<char>, Option<i64>)>> {
    match doc {
        JsonValueView::Object(o) => match json_member(o, "speaker_id_map"@) {
            Some(JsonValueView::Object(m)) => Some(
                Seq::new(m.len(), |j: int| (m[j].0, json_int(m[j].1))),
            ),
            _ => None,
        },
        _ => None,
    }
}

fn json_int_of(v: &JsonValue) -> (r: Option<i64>)
    ensures
        r == json_int(json_view(*v)),
{
    match v {
        JsonValue::Int(i) => Some(*i),
        _ => None,
    }
}

/// Reads the speaker map out of a Piper voice's metadata.
pub fn speaker_id_map(v: &JsonValue) -> (m: Option<Vec<(String, Option<i64>)>>)
    ensures
        match m {
            Some(entries) => speaker_map_of(json_view(*v)) == Some(speaker_map_view(entries@)),
            None => speaker_map_of(json_view(*v)) is None,
        },
{
    let o = match v {
        JsonValue::Object(o) => o,
        _ => return None,
    };
    let ghost ov = match json_view(*v) {
        JsonValueView::Object(x) => x,
        _ => Seq::empty(),
    };
    proof {
        reveal_strlit("speaker_id_map");
    }
    let mut i: usize = 0;
    assert(ov.skip(0) =~= ov);
    while i < o.len()
        invariant
            json_view(*v) == JsonValueView::Object(ov),
            ov.len() == o@.len(),
            forall|k: int| 0 <= k < o@.len() ==> #[trigger] ov[k] == (o@[k].0@, json_view(o@[k].1)),
            i <= o@.len(),
            json_member(ov, "speaker_id_map"@) == json_member(ov.skip(i as int), "speaker_id_map"@),
        decreases o@.len() - i,
    {
        let ghost rest = ov.skip(i as int);
        assert(rest[0] == ov[i as int]);
        if str_equal(o[i].0.as_str(), "speaker_id_map") {
            assert(json_member(rest, "speaker_id_map"@) == Some(json_view(o@[i as int].1)));
            let m = match &o[i].1 {
                JsonValue::Object(m) => m,
                _ => return None,
            };
            let ghost mv = match json_view(o@[i as int].1) {
                JsonValueView::Object(x) => x,
                _ => Seq::empty(),
            };
            let mut out: Vec<(String, Option<i64>)> = Vec::new();
            for j in 0..m.len()
                invariant
                    i < o@.len(),
                    json_view(o@[i as int].1) == JsonValueView::Object(mv),
                    mv.len() == m@.len(),
                    forall|k: int| 0 <= k < m@.len() ==> #[trigger] mv[k] == (m@[k].0@, json_view(m@[k].1)),
                    out@.len() == j,
                    forall|k: int| 0 <= k < j ==> #[trigger] speaker_map_view(out@)[k] == (mv[k].0, json_int(mv[k].1)),
            {
                let name = m[j].0.clone();
                let id = json_int_of(&m[j].1);
                let ghost before = out@;
                out.push((name, id));
                assert(out@ == before.push((name, id)));
                assert forall|k: int| 0 <= k < j + 1 implies #[trigger] speaker_map_view(out@)[k] == (
                    mv[k].0,
                    json_int(mv[k].1),
                ) by {
                    if k < j {
                        assert(out@[k] == before[k]);
                        assert(speaker_map_view(before)[k] == (mv[k].0, json_int(mv[k].1)));
                    }
                }
            }
            assert(speaker_map_view(out@) =~= Seq::new(mv.len(), |k: int| (mv[k].0, json_int(mv[k].1))));
            return Some(out);
        }
        assert(rest.drop_first() =~= ov.skip(i + 1));
        i = i + 1;
    }
    assert(ov.skip(i as int) =~= Seq::<(Seq<char>, JsonValueView)>::empty());
    None
}

/// The speaker listing of a Piper voice from the text of its metadata
/// file; `None` when the text is not a JSON document.
pub fn piper_speaker_lines(raw: &str) -> (r: Option<Vec<String>>)
    ensures
        r is None <==> json_parse(raw@) is None,
        r matches Some(lines) ==> (json_parse(raw@) matches Some(doc) && crate::hooks::strings_view(lines@)
            == speaker_text(speaker_map_of(doc))),
{
    match parse_json(raw) {
        None => None,
        Some(doc) => {
            let map = speaker_id_map(&doc);
            let ghost mv = match &map {
                Some(m) => Some(speaker_map_view(m@)),
                None => None,
            };
            assert(mv == speaker_map_of(json_view(doc)));
            Some(speaker_lines(map))
        },
    }
}

} // verus!
