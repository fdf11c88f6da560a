//! The configuration file's model (`config.toml`) and its defaults.
use vstd::prelude::*;
use crate::dirs::{config_dir, data_dir, opt_str_view, opt_view};
use crate::paths::{join, path_join};

verus! {

/// Name of the default transcription model.
pub const DEFAULT_MODEL_NAME: &'static str = "parakeet-tdt-0.6b-v2-int8";
/// Download location of the default transcription model.
pub const DEFAULT_MODEL_URL: &'static str = "https://huggingface.co/smcleod/parakeet-tdt-0.6b-v2-int8/resolve/main/parakeet-tdt-0.6b-v2-int8.tar.gz";
/// File name of the voice-activity model.
pub const VAD_MODEL_FILE: &'static str = "silero_vad_v4.onnx";
/// Download location of the voice-activity model.
pub const DEFAULT_VAD_MODEL_URL: &'static str = "https://blob.handy.computer/silero_vad_v4.onnx";
/// Default output command: type the text with ydotool.
pub const DEFAULT_OUTPUT_COMMAND: &'static str = "ydotool type --key-delay 2 {text}";
/// Piper voice model downloaded by default.
pub const DEFAULT_PIPER_MODEL_URL: &'static str = "https://huggingface.co/rhasspy/piper-voices/resolve/v1.0.0/en/en_US/lessac/medium/en_US-lessac-medium.onnx";
/// Metadata of the default Piper voice.
pub const DEFAULT_PIPER_CONFIG_URL: &'static str = "https://huggingface.co/rhasspy/piper-voices/resolve/v1.0.0/en/en_US/lessac/medium/en_US-lessac-medium.onnx.json";
/// Piper runtime for x86-64 Linux.
pub const PIPER_RUNTIME_URL_AMD64: &'static str = "https://github.com/rhasspy/piper/releases/download/v1.2.0/piper_amd64.tar.gz";
/// Piper runtime for 64-bit ARM Linux.
pub const PIPER_RUNTIME_URL_AARCH64: &'static str = "https://github.com/rhasspy/piper/releases/download/v1.2.0/piper_aarch64.tar.gz";
/// Quantized Kokoro model named by the configuration defaults.
pub const DEFAULT_KOKORO_INT8_MODEL_URL: &'static str = "https://github.com/mzdk100/kokoro/releases/download/V1.0/kokoro-v1.0.int8.onnx";
/// Full-precision Kokoro model.
pub const KOKORO_MODEL_URL: &'static str = "https://github.com/mzdk100/kokoro/releases/download/V1.0/kokoro-v1.0.onnx";
/// Kokoro voice pack.
pub const KOKORO_VOICES_URL: &'static str = "https://github.com/mzdk100/kokoro/releases/download/V1.0/voices.bin";
/// Bit pattern of the default voice-probability threshold, 0.5 as an `f32`.
pub const DEFAULT_ENERGY_THRESHOLD_BITS: u32 = 0x3f00_0000;

/// `[model]`: the transcription model.
#[derive(Clone, Debug)]
pub struct ModelConfig {
    pub name: String,
    pub path: String,
    pub quantization: String,
    pub timestamp_granularity: Option<String>,
    pub download_url: Option<String>,
}

/// `[vad]`: speech detection.  The voice-probability threshold is held as
/// the bit pattern of its `f32` value.
#[derive(Clone, Debug)]
pub struct VadConfig {
    pub enabled: bool,
    pub min_speech_ms: u64,
    pub max_speech_ms: u64,
    pub fixed_chunk_ms: Option<u64>,
    pub energy_threshold_bits: u32,
    pub model_path: String,
    pub model_url: Option<String>,
    pub onset_frames: usize,
    pub hangover_frames: usize,
    pub prefill_frames: usize,
}

/// `[audio]`: capture settings.
#[derive(Clone, Debug)]
pub struct AudioConfig {
    pub sample_rate: u32,
    pub frame_ms: u32,
    pub input_device: Option<String>,
}

/// `[output]`: the command that receives the text (`{text}` placeholder).
#[derive(Clone, Debug)]
pub struct OutputConfig {
    pub command: String,
}

/// `[sound]`: audio feedback after a transcription.
#[derive(Clone, Debug)]
pub struct SoundConfig {
    pub enabled: bool,
    pub command: String,
}

/// `[ipc]`: the control socket.
#[derive(Clone, Debug)]
pub struct IpcConfig {
    pub socket_path: Option<String>,
}

/// `[history]`: the in-memory transcription history.
#[derive(Clone, Copy, Debug)]
pub struct HistoryConfig {
    pub max_entries: usize,
}

/// `[tts]`: text-to-speech.
#[derive(Clone, Debug)]
pub struct TtsConfig {
    pub engine: String,
    pub output_mode: String,
    pub output_path: Option<String>,
    pub piper: TtsBackendConfig,
    pub kokoro: TtsBackendConfig,
}

/// `[tts.piper]` / `[tts.kokoro]`: one text-to-speech backend.
#[derive(Clone, Debug)]
pub struct TtsBackendConfig {
    pub command: String,
    pub model_path: Option<String>,
    pub runtime_path: Option<String>,
    pub voices_path: Option<String>,
    pub voice: Option<String>,
    pub language: Option<String>,
    pub speaker: Option<u32>,
    pub model_url: Option<String>,
    pub runtime_url: Option<String>,
    pub config_url: Option<String>,
    pub voice_url: Option<String>,
}

/// The whole configuration file.
#[derive(Clone, Debug)]
pub struct Config {
    pub model: ModelConfig,
    pub vad: VadConfig,
    pub audio: AudioConfig,
    pub output: OutputConfig,
    pub sound: SoundConfig,
    pub history: HistoryConfig,
    pub tts: TtsConfig,
    pub ipc: IpcConfig,
}

/// A model file under the data directory (`<data>/models/<file>`), or under
/// `models/` relative to the working directory when there is no data
/// directory.
pub open spec fn model_file_path(data_dir: Option<Seq<char>>, file: Seq<char>) -> Seq<char> {
    match data_dir {
        Some(d) => path_join(path_join(d, "models"@), file),
        None => path_join("models"@, file),
    }
}

/// Executable form of [`model_file_path`].
pub fn model_file_path_in(data_dir: Option<&str>, file: &str) -> (r: String)
    ensures
        r@ == model_file_path(opt_str_view(data_dir), file@),
{
    match data_dir {
        Some(d) => {
            let m = join(d, "models");
            join(m.as_str(), file)
        },
        None => join("models", file),
    }
}

fn data_dir_file(file: &str) -> (r: String)
    ensures
        exists|d: Option<Seq<char>>| r@ == model_file_path(d, file@),
{
    let dd = data_dir();
    let r = match &dd {
        Some(d) => model_file_path_in(Some(d.as_str()), file),
        None => model_file_path_in(None, file),
    };
    assert(r@ == model_file_path(opt_view(dd), file@));
    r
}

/// Default location of the transcription model.
pub fn default_model_path() -> (r: String)
    ensures
        exists|d: Option<Seq<char>>| r@ == model_file_path(d, DEFAULT_MODEL_NAME@),
{
    data_dir_file(DEFAULT_MODEL_NAME)
}

/// Default location of the voice-activity model.
pub fn default_vad_model_path() -> (r: String)
    ensures
        exists|d: Option<Seq<char>>| r@ == model_file_path(d, VAD_MODEL_FILE@),
{
    data_dir_file(VAD_MODEL_FILE)
}

/// Default download location of the voice-activity model.
pub fn default_vad_model_url() -> (r: Option<String>)
    ensures
        opt_view(r) == Some(DEFAULT_VAD_MODEL_URL@),
{
    Some(String::from_str(DEFAULT_VAD_MODEL_URL))
}

/// Default number of voiced frames that start speech.
pub fn default_onset_frames() -> (r: usize)
    ensures
        r == 2,
{
    2
}

/// Default number of unvoiced frames tolerated inside speech.
pub fn default_hangover_frames() -> (r: usize)
    ensures
        r == 20,
{
    20
}

/// Default number of frames kept from before speech starts.
pub fn default_prefill_frames() -> (r: usize)
    ensures
        r == 5,
{
    5
}

/// Default of the on/off settings that are on unless said otherwise.
pub fn default_true() -> (r: bool)
    ensures
        r,
{
    true
}

/// Default sound command: none, so the built-in tone plays.
pub fn default_sound_command() -> (r: String)
    ensures
        r@ == Seq::<char>::empty(),
{
    String::new()
}

/// Default number of history entries kept.
pub fn default_history_max_entries() -> (r: usize)
    ensures
        r == crate::daemon::DEFAULT_HISTORY_MAX_ENTRIES,
{
    crate::daemon::DEFAULT_HISTORY_MAX_ENTRIES
}

/// Default text-to-speech engine.
pub fn default_tts_engine() -> (r: String)
    ensures
        r@ == "piper"@,
{
    String::from_str("piper")
}

/// Default text-to-speech output mode.
pub fn default_tts_output_mode() -> (r: String)
    ensures
        r@ == "pipewire"@,
{
    String::from_str("pipewire")
}

/// Default Piper command: none, so the embedded runtime is used.
pub fn default_piper_command() -> (r: String)
    ensures
        r@ == Seq::<char>::empty(),
{
    String::new()
}

/// Default Kokoro command: none, so the built-in engine is used.
pub fn default_kokoro_command() -> (r: String)
    ensures
        r@ == Seq::<char>::empty(),
{
    String::new()
}

/// Default download location of the Piper voice.
pub fn default_tts_piper_model_url() -> (r: Option<String>)
    ensures
        opt_view(r) == Some(DEFAULT_PIPER_MODEL_URL@),
{
    Some(String::from_str(DEFAULT_PIPER_MODEL_URL))
}

/// Default download location of the Piper voice's metadata.
pub fn default_tts_piper_config_url() -> (r: Option<String>)
    ensures
        opt_view(r) == Some(DEFAULT_PIPER_CONFIG_URL@),
{
    Some(String::from_str(DEFAULT_PIPER_CONFIG_URL))
}

/// Default download location of the Kokoro model (the quantized one).
pub fn default_tts_kokoro_model_url() -> (r: Option<String>)
    ensures
        opt_view(r) == Some(DEFAULT_KOKORO_INT8_MODEL_URL@),
{
    Some(String::from_str(DEFAULT_KOKORO_INT8_MODEL_URL))
}

/// Default download location of the Kokoro voice pack.
pub fn default_tts_kokoro_voice_url() -> (r: Option<String>)
    ensures
        opt_view(r) == Some(KOKORO_VOICES_URL@),
{
    Some(String::from_str(KOKORO_VOICES_URL))
}

/// The Piper runtime archive for a CPU architecture (`std::env::consts::ARCH`),
/// if one is published.
pub open spec fn piper_runtime_url_for(arch: Seq<char>) -> Option<Seq<char>> {
    if arch == "x86_64"@ {
        Some(PIPER_RUNTIME_URL_AMD64@)
    } else if arch == "aarch64"@ {
        Some(PIPER_RUNTIME_URL_AARCH64@)
    } else {
        None
    }
}

/// Executable form of [`piper_runtime_url_for`].
pub fn default_piper_runtime_url(arch: &str) -> (r: Option<String>)
    ensures
        opt_view(r) == piper_runtime_url_for(arch@),
{
    if crate::text::str_equal(arch, "x86_64") {
        Some(String::from_str(PIPER_RUNTIME_URL_AMD64))
    } else if crate::text::str_equal(arch, "aarch64") {
        Some(String::from_str(PIPER_RUNTIME_URL_AARCH64))
    } else {
        None
    }
}

/// Whether a backend section holds only the given command, voice and URLs,
/// and no paths, language or speaker.
pub open spec fn backend_is(
    b: TtsBackendConfig,
    command: Seq<char>,
    voice: Option<Seq<char>>,
    model_url: Option<Seq<char>>,
    runtime_url: Option<Seq<char>>,
    config_url: Option<Seq<char>>,
    voice_url: Option<Seq<char>>,
) -> bool {
    &&& b.command@ == command
    &&& b.model_path is None
    &&& b.runtime_path is None
    &&& b.voices_path is None
    &&& opt_view(b.voice) == voice
    &&& b.language is None
    &&& b.speaker is None
    &&& opt_view(b.model_url) == model_url
    &&& opt_view(b.runtime_url) == runtime_url
    &&& opt_view(b.config_url) == config_url
    &&& opt_view(b.voice_url) == voice_url
}

/// The default Piper backend: the built-in runtime with the lessac voice.
pub fn default_piper_backend(arch: &str) -> (b: TtsBackendConfig)
    ensures
        backend_is(
            b,
            Seq::empty(),
            None,
            Some(DEFAULT_PIPER_MODEL_URL@),
            piper_runtime_url_for(arch@),
            Some(DEFAULT_PIPER_CONFIG_URL@),
            None,
        ),
{
    TtsBackendConfig {
        command: String::new(),
        model_path: None,
        runtime_path: None,
        voices_path: None,
        voice: None,
        language: None,
        speaker: None,
        model_url: Some(String::from_str(DEFAULT_PIPER_MODEL_URL)),
        runtime_url: default_piper_runtime_url(arch),
        config_url: Some(String::from_str(DEFAULT_PIPER_CONFIG_URL)),
        voice_url: None,
    }
}

/// The default Kokoro backend of the configuration file: the quantized
/// model and the `af_sky` voice.
pub fn default_kokoro_backend() -> (b: TtsBackendConfig)
    ensures
        backend_is(
            b,
            Seq::empty(),
            Some("af_sky"@),
            Some(DEFAULT_KOKORO_INT8_MODEL_URL@),
            None,
            None,
            Some(KOKORO_VOICES_URL@),
        ),
{
    TtsBackendConfig {
        command: String::new(),
        model_path: None,
        runtime_path: None,
        voices_path: None,
        voice: Some(String::from_str("af_sky")),
        language: None,
        speaker: None,
        model_url: Some(String::from_str(DEFAULT_KOKORO_INT8_MODEL_URL)),
        runtime_url: None,
        config_url: None,
        voice_url: Some(String::from_str(KOKORO_VOICES_URL)),
    }
}

/// The default `[tts]` section.
pub fn default_tts_config(arch: &str) -> (t: TtsConfig)
    ensures
        t.engine@ == "piper"@,
        t.output_mode@ == "pipewire"@,
        t.output_path is None,
        backend_is(
            t.piper,
            Seq::empty(),
            None,
            Some(DEFAULT_PIPER_MODEL_URL@),
            piper_runtime_url_for(arch@),
            Some(DEFAULT_PIPER_CONFIG_URL@),
            None,
        ),
        backend_is(
            t.kokoro,
            Seq::empty(),
            Some("af_sky"@),
            Some(DEFAULT_KOKORO_INT8_MODEL_URL@),
            None,
            None,
            Some(KOKORO_VOICES_URL@),
        ),
{
    TtsConfig {
        engine: String::from_str("piper"),
        output_mode: String::from_str("pipewire"),
        output_path: None,
        piper: default_piper_backend(arch),
        kokoro: default_kokoro_backend(),
    }
}

impl VadConfig {
    /// The default `[vad]` section, with the voice-activity model at `model_path`.
    pub fn default_with_model_path(model_path: String) -> (v: VadConfig)
        ensures
            v.enabled,
            v.min_speech_ms == 250,
            v.max_speech_ms == 10000,
            v.fixed_chunk_ms is None,
            v.energy_threshold_bits == DEFAULT_ENERGY_THRESHOLD_BITS,
            v.model_path@ == model_path@,
            opt_view(v.model_url) == Some(DEFAULT_VAD_MODEL_URL@),
            v.onset_frames == 2,
            v.hangover_frames == 20,
            v.prefill_frames == 5,
    {
        VadConfig {
            enabled: true,
            min_speech_ms: 250,
            max_speech_ms: 10_000,
            fixed_chunk_ms: None,
            energy_threshold_bits: DEFAULT_ENERGY_THRESHOLD_BITS,
            model_path,
            model_url: Some(String::from_str(DEFAULT_VAD_MODEL_URL)),
            onset_frames: 2,
            hangover_frames: 20,
            prefill_frames: 5,
        }
    }
}

impl Default for VadConfig {
    fn default() -> (v: VadConfig)
        ensures
            v.enabled,
            v.min_speech_ms == 250,
            v.max_speech_ms == 10000,
            v.fixed_chunk_ms is None,
            v.energy_threshold_bits == DEFAULT_ENERGY_THRESHOLD_BITS,
            exists|d: Option<Seq<char>>| v.model_path@ == model_file_path(d, VAD_MODEL_FILE@),
            opt_view(v.model_url) == Some(DEFAULT_VAD_MODEL_URL@),
            v.onset_frames == 2,
            v.hangover_frames == 20,
            v.prefill_frames == 5,
    {
        VadConfig::default_with_model_path(default_vad_model_path())
    }
}

impl Default for SoundConfig {
    fn default() -> (s: SoundConfig)
        ensures
            s.enabled,
            s.command@ == Seq::<char>::empty(),
    {
        SoundConfig { enabled: true, command: String::new() }
    }
}

impl Default for HistoryConfig {
    fn default() -> (h: HistoryConfig)
        ensures
            h.max_entries == crate::daemon::DEFAULT_HISTORY_MAX_ENTRIES,
    {
        HistoryConfig { max_entries: crate::daemon::DEFAULT_HISTORY_MAX_ENTRIES }
    }
}

/// Whether `c` is the default configuration for the data directory
/// `data_dir` and the CPU architecture `arch`.
pub open spec fn is_default_config(c: Config, data_dir: Option<Seq<char>>, arch: Seq<char>) -> bool {
    &&& c.model.name@ == "parakeet-v2"@
    &&& c.model.path@ == model_file_path(data_dir, DEFAULT_MODEL_NAME@)
    &&& c.model.quantization@ == "int8"@
    &&& c.model.timestamp_granularity is None
    &&& opt_view(c.model.download_url) == Some(DEFAULT_MODEL_URL@)
    &&& c.vad.enabled
    &&& c.vad.min_speech_ms == 250
    &&& c.vad.max_speech_ms == 10000
    &&& c.vad.fixed_chunk_ms is None
    &&& c.vad.energy_threshold_bits == DEFAULT_ENERGY_THRESHOLD_BITS
    &&& c.vad.model_path@ == model_file_path(data_dir, VAD_MODEL_FILE@)
    &&& opt_view(c.vad.model_url) == Some(DEFAULT_VAD_MODEL_URL@)
    &&& c.vad.onset_frames == 2
    &&& c.vad.hangover_frames == 20
    &&& c.vad.prefill_frames == 5
    &&& c.audio.sample_rate == 16000
    &&& c.audio.frame_ms == 30
    &&& c.audio.input_device is None
    &&& c.output.command@ == DEFAULT_OUTPUT_COMMAND@
    &&& c.sound.enabled
    &&& c.sound.command@ == Seq::<char>::empty()
    &&& c.history.max_entries == crate::daemon::DEFAULT_HISTORY_MAX_ENTRIES
    &&& c.tts.engine@ == "piper"@
    &&& c.tts.output_mode@ == "pipewire"@
    &&& c.tts.output_path is None
    &&& backend_is(
        c.tts.piper,
        Seq::empty(),
        None,
        Some(DEFAULT_PIPER_MODEL_URL@),
        piper_runtime_url_for(arch),
        Some(DEFAULT_PIPER_CONFIG_URL@),
        None,
    )
    &&& backend_is(
        c.tts.kokoro,
        Seq::empty(),
        Some("af_sky"@),
        Some(DEFAULT_KOKORO_INT8_MODEL_URL@),
        None,
        None,
        Some(KOKORO_VOICES_URL@),
    )
    &&& c.ipc.socket_path is None
}

impl Config {
    /// The default configuration, given the data directory and the CPU
    /// architecture.
    pub fn defaults_in(data_dir: Option<&str>, arch: &str) -> (c: Config)
        ensures
            is_default_config(c, opt_str_view(data_dir), arch@),
    {
        Config {
            model: ModelConfig {
                name: String::from_str("parakeet-v2"),
                path: model_file_path_in(data_dir, DEFAULT_MODEL_NAME),
                quantization: String::from_str("int8"),
                timestamp_granularity: None,
                download_url: Some(String::from_str(DEFAULT_MODEL_URL)),
            },
            vad: VadConfig::default_with_model_path(model_file_path_in(data_dir, VAD_MODEL_FILE)),
            audio: AudioConfig { sample_rate: 16_000, frame_ms: 30, input_device: None },
            output: OutputConfig { command: String::from_str(DEFAULT_OUTPUT_COMMAND) },
            sound: SoundConfig { enabled: true, command: String::new() },
            history: HistoryConfig { max_entries: crate::daemon::DEFAULT_HISTORY_MAX_ENTRIES },
            tts: default_tts_config(arch),
            ipc: IpcConfig { socket_path: None },
        }
    }

    /// The default configuration for a CPU architecture, with the data
    /// directory of the current user (which depends on the environment).
    pub fn default_for_arch(arch: &str) -> (c: Config)
        ensures
            exists|d: Option<Seq<char>>| is_default_config(c, d, arch@),
    {
        let dd = data_dir();
        let c = match &dd {
            Some(d) => Config::defaults_in(Some(d.as_str()), arch),
            None => Config::defaults_in(None, arch),
        };
        assert(is_default_config(c, opt_view(dd), arch@));
        c
    }
}

/// The configuration file (`config.toml`) in the configuration directory.
pub open spec fn config_file_for(config_dir: Seq<char>) -> Seq<char> {
    path_join(config_dir, "config.toml"@)
}

/// Failure to locate the configuration.
#[derive(Clone, Copy, Debug, PartialEq, Eq, Structural)]
pub enum ConfigError {
    /// No home directory, hence no configuration directory.
    NoConfigDir,
}

/// Executable form of [`config_file_for`], failing when there is no
/// configuration directory.
pub fn config_path_in(config_dir: Option<&str>) -> (r: Result<String, ConfigError>)
    ensures
        match config_dir {
            Some(d) => r matches Ok(p) && p@ == config_file_for(d@),
            None => r == Err::<String, ConfigError>(ConfigError::NoConfigDir),
        },
{
    match config_dir {
        Some(d) => Ok(join(d, "config.toml")),
        None => Err(ConfigError::NoConfigDir),
    }
}

/// The configuration file of the current user.
pub fn config_path() -> (r: Result<String, ConfigError>)
    ensures
        r matches Ok(p) ==> exists|d: Seq<char>| p@ == config_file_for(d),
        r matches Err(e) ==> e == ConfigError::NoConfigDir,
{
    match config_dir() {
        Some(d) => config_path_in(Some(d.as_str())),
        None => config_path_in(None),
    }
}

/// The socket the daemon listens on: the command-line choice, else the
/// configured path, else the default.
pub fn resolve_socket_path(cli: Option<String>, config: &IpcConfig, default: String) -> (r: String)
    ensures
        r@ == (match cli {
            Some(s) => s@,
            None => match config.socket_path {
                Some(s) => s@,
                None => default@,
            },
        }),
{
    match cli {
        Some(s) => s,
        None => match &config.socket_path {
            Some(s) => s.clone(),
            None => default,
        },
    }
}

} // verus!
