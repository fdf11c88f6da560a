//! Decisions of the text-to-speech helper: engine and output selection,
//! text preparation, and the command line of each backend.
use vstd::prelude::*;
use crate::config::{
    backend_is, default_piper_backend, piper_runtime_url_for, TtsBackendConfig, TtsConfig,
    DEFAULT_PIPER_CONFIG_URL, DEFAULT_PIPER_MODEL_URL, KOKORO_MODEL_URL, KOKORO_VOICES_URL,
};
use crate::dirs::{data_dir, opt_view};
use crate::paths::{join, path_join};
use crate::hooks::{shell_split, split_words, strings_view, TEXT_PLACEHOLDER};
use crate::text::{
    chars_eq_str, str_equal, chars_contain, contains, decimal, digit_char, push_decimal, ascii_lowercase, chars_collapse_ws, chars_of, chars_replace_all, chars_replace_prefix,
    collapse_ws, push_all, replace_all, replace_prefix, string_of, to_ascii_lowercase, trim,
    trim_str,
};

verus! {

/// A text-to-speech backend.
#[derive(Clone, Copy, Debug, PartialEq, Eq, Structural)]
pub enum Engine {
    Piper,
    Kokoro,
}

/// Where synthesized speech goes.
#[derive(Clone, Copy, Debug, PartialEq, Eq, Structural)]
pub enum OutputMode {
    /// Played at once.
    Pipewire,
    /// Written to a WAV file.
    File,
}

/// Voice presets of the embedded Piper runtime.
#[derive(Clone, Copy, Debug, PartialEq, Eq, Structural)]
pub enum PiperPreset {
    Masculine,
    Natural,
    Crisp,
}

/// The voices of the built-in Kokoro engine.
#[derive(Clone, Copy, Debug, PartialEq, Eq, Structural)]
pub enum KokoroVoice {
    AfBella,
    AfSky,
    AfNova,
    AmMichael,
    AmAdam,
}

/// Why the text-to-speech helper cannot go on.
#[derive(Debug)]
pub enum TtsError {
    /// `tts.engine` names no known engine (the lower-cased value).
    UnsupportedEngine { value: String },
    /// `tts.output_mode` names no known mode (the lower-cased value).
    UnsupportedOutputMode { value: String },
    /// The voice is not one of the built-in Kokoro voices (the lower-cased value).
    UnsupportedKokoroVoice { value: String },
    /// Neither `--text` nor standard input gave any text.
    NoText,
    /// The backend has no model path after its assets were set up.
    MissingModelPath,
    /// The backend has no voices file after its assets were set up.
    MissingVoicesPath,
    /// The backend command is empty.
    EmptyCommand { engine: Engine },
    /// The backend command could not be split into words.
    CommandParse,
    /// The backend command has no words once rendered.
    EmptyInvocation,
    /// File output was asked for without a destination.
    MissingOutputPath,
    /// No data directory is known.
    NoDataDir,
    /// The model is missing and no `model_url` is configured.
    MissingModelUrl,
    /// Kokoro's voice pack is missing and no `voice_url` is configured.
    MissingVoiceUrl,
    /// The built-in Kokoro engine has no model path after its assets were set up.
    MissingKokoroModelPath,
    /// No Piper runtime is configured or known for this architecture.
    NoPiperRuntime { arch: String },
    /// The Piper runtime was unpacked but its executable is not there.
    PiperRuntimeMissing { path: String },
    /// Listing Piper's speakers needs a model path.
    MissingPiperModel,
    /// Piper's metadata file is not next to its model.
    MissingPiperMetadata { path: String },
}

/// The engine named by a configuration value, ignoring ASCII case.
pub open spec fn engine_named(value: Seq<char>) -> Option<Engine> {
    let v = ascii_lowercase(value);
    if v == "piper"@ {
        Some(Engine::Piper)
    } else if v == "kokoro"@ {
        Some(Engine::Kokoro)
    } else {
        None
    }
}

/// Parses `tts.engine`.
pub fn parse_engine(value: &str) -> (r: Result<Engine, TtsError>)
    ensures
        match r {
            Ok(e) => engine_named(value@) == Some(e),
            Err(TtsError::UnsupportedEngine { value: v }) => engine_named(value@) is None && v@
                == ascii_lowercase(value@),
            Err(_) => false,
        },
{
    let v = to_ascii_lowercase(value);
    if chars_eq_str(&v, "piper") {
        Ok(Engine::Piper)
    } else if chars_eq_str(&v, "kokoro") {
        Ok(Engine::Kokoro)
    } else {
        Err(TtsError::UnsupportedEngine { value: string_of(v.as_slice()) })
    }
}

/// The output mode named by a configuration value, ignoring ASCII case.
pub open spec fn output_mode_named(value: Seq<char>) -> Option<OutputMode> {
    let v = ascii_lowercase(value);
    if v == "pipewire"@ {
        Some(OutputMode::Pipewire)
    } else if v == "file"@ {
        Some(OutputMode::File)
    } else {
        None
    }
}

/// Parses `tts.output_mode`.
pub fn parse_output_mode(value: &str) -> (r: Result<OutputMode, TtsError>)
    ensures
        match r {
            Ok(m) => output_mode_named(value@) == Some(m),
            Err(TtsError::UnsupportedOutputMode { value: v }) => output_mode_named(value@) is None
                && v@ == ascii_lowercase(value@),
            Err(_) => false,
        },
{
    let v = to_ascii_lowercase(value);
    if chars_eq_str(&v, "pipewire") {
        Ok(OutputMode::Pipewire)
    } else if chars_eq_str(&v, "file") {
        Ok(OutputMode::File)
    } else {
        Err(TtsError::UnsupportedOutputMode { value: string_of(v.as_slice()) })
    }
}

/// The engine to use: the command-line choice, else the configured one.
pub fn resolve_engine(cli: Option<Engine>, configured: &str) -> (r: Result<Engine, TtsError>)
    ensures
        match cli {
            Some(e) => r matches Ok(x) && x == e,
            None => match r {
                Ok(e) => engine_named(configured@) == Some(e),
                Err(_) => engine_named(configured@) is None,
            },
        },
{
    match cli {
        Some(e) => Ok(e),
        None => parse_engine(configured),
    }
}

/// The output mode to use: the command-line choice, else the configured one.
pub fn resolve_output_mode(cli: Option<OutputMode>, configured: &str) -> (r: Result<
    OutputMode,
    TtsError,
>)
    ensures
        match cli {
            Some(m) => r matches Ok(x) && x == m,
            None => match r {
                Ok(m) => output_mode_named(configured@) == Some(m),
                Err(_) => output_mode_named(configured@) is None,
            },
        },
{
    match cli {
        Some(m) => Ok(m),
        None => parse_output_mode(configured),
    }
}

/// The Kokoro voice named by a value, ignoring ASCII case.
pub open spec fn kokoro_voice_named(value: Seq<char>) -> Option<KokoroVoice> {
    let v = ascii_lowercase(value);
    if v == "af_bella"@ {
        Some(KokoroVoice::AfBella)
    } else if v == "af_sky"@ {
        Some(KokoroVoice::AfSky)
    } else if v == "af_nova"@ {
        Some(KokoroVoice::AfNova)
    } else if v == "am_michael"@ {
        Some(KokoroVoice::AmMichael)
    } else if v == "am_adam"@ {
        Some(KokoroVoice::AmAdam)
    } else {
        None
    }
}

/// The name a Kokoro voice is listed and configured under.
pub open spec fn kokoro_voice_name(v: KokoroVoice) -> Seq<char> {
    match v {
        KokoroVoice::AfBella => "af_bella"@,
        KokoroVoice::AfSky => "af_sky"@,
        KokoroVoice::AfNova => "af_nova"@,
        KokoroVoice::AmMichael => "am_michael"@,
        KokoroVoice::AmAdam => "am_adam"@,
    }
}

/// Each Kokoro voice is named by its own name, in any ASCII case, and by
/// nothing else: a value names a voice exactly when, lower-cased, it is
/// that voice's name, and no two voices share a name.
pub proof fn lemma_kokoro_voice_named_by_its_name(value: Seq<char>, v: KokoroVoice, w: KokoroVoice)
    ensures
        kokoro_voice_named(value) == Some(v) <==> ascii_lowercase(value) == kokoro_voice_name(v),
        v != w ==> kokoro_voice_name(v) != kokoro_voice_name(w),
        kokoro_voice_name(KokoroVoice::AfBella) == "af_bella"@,
        kokoro_voice_name(KokoroVoice::AfSky) == "af_sky"@,
        kokoro_voice_name(KokoroVoice::AfNova) == "af_nova"@,
        kokoro_voice_name(KokoroVoice::AmMichael) == "am_michael"@,
        kokoro_voice_name(KokoroVoice::AmAdam) == "am_adam"@,
{
    reveal_strlit("af_bella");
    reveal_strlit("af_sky");
    reveal_strlit("af_nova");
    reveal_strlit("am_michael");
    reveal_strlit("am_adam");
    if v != w {
        let a = kokoro_voice_name(v);
        let b = kokoro_voice_name(w);
        if a == b {
            assert(a.len() == b.len());
            assert(a[1] == b[1]);
            assert(a[3] == b[3]);
        }
    }
    let lv = ascii_lowercase(value);
    if lv == kokoro_voice_name(v) {
        assert forall|u: KokoroVoice| u != v implies lv != #[trigger] kokoro_voice_name(u) by {
            let a = kokoro_voice_name(v);
            let b = kokoro_voice_name(u);
            if a == b {
                assert(a.len() == b.len());
                assert(a[1] == b[1]);
                assert(a[3] == b[3]);
            }
        }
        assert(lv != kokoro_voice_name(KokoroVoice::AfBella) || v == KokoroVoice::AfBella);
        assert(lv != kokoro_voice_name(KokoroVoice::AfSky) || v == KokoroVoice::AfSky);
        assert(lv != kokoro_voice_name(KokoroVoice::AfNova) || v == KokoroVoice::AfNova);
        assert(lv != kokoro_voice_name(KokoroVoice::AmMichael) || v == KokoroVoice::AmMichael);
    }
}

/// Parses a Kokoro voice name.
pub fn parse_kokoro_voice(name: &str) -> (r: Result<KokoroVoice, TtsError>)
    ensures
        match r {
            Ok(v) => kokoro_voice_named(name@) == Some(v),
            Err(TtsError::UnsupportedKokoroVoice { value: v }) => kokoro_voice_named(name@) is None
                && v@ == ascii_lowercase(name@),
            Err(_) => false,
        },
{
    let v = to_ascii_lowercase(name);
    if chars_eq_str(&v, "af_bella") {
        Ok(KokoroVoice::AfBella)
    } else if chars_eq_str(&v, "af_sky") {
        Ok(KokoroVoice::AfSky)
    } else if chars_eq_str(&v, "af_nova") {
        Ok(KokoroVoice::AfNova)
    } else if chars_eq_str(&v, "am_michael") {
        Ok(KokoroVoice::AmMichael)
    } else if chars_eq_str(&v, "am_adam") {
        Ok(KokoroVoice::AmAdam)
    } else {
        Err(TtsError::UnsupportedKokoroVoice { value: string_of(v.as_slice()) })
    }
}

/// Voice used by the built-in Kokoro engine when none is configured.
pub const DEFAULT_KOKORO_VOICE: &'static str = "af_bella";

/// The voices the built-in Kokoro engine offers, as listed to the user.
pub fn kokoro_voice_names() -> (r: Vec<&'static str>)
    ensures
        r@.len() == 5,
        r@[0]@ == "af_bella"@,
        r@[1]@ == "af_sky"@,
        r@[2]@ == "af_nova"@,
        r@[3]@ == "am_michael"@,
        r@[4]@ == "am_adam"@,
        forall|i: int| 0 <= i < 5 ==> kokoro_voice_named(#[trigger] r@[i]@) is Some,
{
    let mut r: Vec<&'static str> = Vec::new();
    r.push("af_bella");
    r.push("af_sky");
    r.push("af_nova");
    r.push("am_michael");
    r.push("am_adam");
    proof {
        reveal_strlit("af_bella");
        reveal_strlit("af_sky");
        reveal_strlit("af_nova");
        reveal_strlit("am_michael");
        reveal_strlit("am_adam");
        assert(ascii_lowercase("af_bella"@) =~= "af_bella"@);
        assert(ascii_lowercase("af_sky"@) =~= "af_sky"@);
        assert(ascii_lowercase("af_nova"@) =~= "af_nova"@);
        assert(ascii_lowercase("am_michael"@) =~= "am_michael"@);
        assert(ascii_lowercase("am_adam"@) =~= "am_adam"@);
    }
    r
}

/// The Kokoro backend defaults of the helper (used when the configuration
/// has no `[tts.kokoro]`): the full-precision model and the `af_bella` voice.
pub fn default_kokoro_backend() -> (b: TtsBackendConfig)
    ensures
        backend_is(
            b,
            Seq::empty(),
            Some("af_bella"@),
            Some(KOKORO_MODEL_URL@),
            None,
            None,
            Some(KOKORO_VOICES_URL@),
        ),
{
    TtsBackendConfig {
        command: String::new(),
        model_path: None,
        runtime_path: None,
        voices_path: None,
        voice: Some(String::from_str(DEFAULT_KOKORO_VOICE)),
        language: None,
        speaker: None,
        model_url: Some(String::from_str(KOKORO_MODEL_URL)),
        runtime_url: None,
        config_url: None,
        voice_url: Some(String::from_str(KOKORO_VOICES_URL)),
    }
}

/// The `[tts]` defaults of the helper.
pub fn default_config(arch: &str) -> (t: TtsConfig)
    ensures
        t.engine@ == "piper"@,
        t.output_mode@ == "pipewire"@,
        t.output_path is None,
        backend_is(
            t.piper,
            Seq::empty(),
            None,
            Some(DEFAULT_PIPER_MODEL_URL@),
            piper_runtime_url_for(arch@),
            Some(DEFAULT_PIPER_CONFIG_URL@),
            None,
        ),
        backend_is(
            t.kokoro,
            Seq::empty(),
            Some("af_bella"@),
            Some(KOKORO_MODEL_URL@),
            None,
            None,
            Some(KOKORO_VOICES_URL@),
        ),
{
    TtsConfig {
        engine: String::from_str("piper"),
        output_mode: String::from_str("pipewire"),
        output_path: None,
        piper: default_piper_backend(arch),
        kokoro: default_kokoro_backend(),
    }
}

/// The configuration section of an engine.
pub fn backend_cfg(engine: Engine, cfg: &TtsConfig) -> (r: &TtsBackendConfig)
    ensures
        r == (match engine {
            Engine::Piper => &cfg.piper,
            Engine::Kokoro => &cfg.kokoro,
        }),
{
    match engine {
        Engine::Piper => &cfg.piper,
        Engine::Kokoro => &cfg.kokoro,
    }
}

/// The text to speak read from standard input: trimmed, and not empty.
pub fn stdin_text(input: &str) -> (r: Result<String, TtsError>)
    ensures
        match r {
            Ok(t) => t@ == trim(input@) && t@.len() > 0,
            Err(TtsError::NoText) => trim(input@).len() == 0,
            Err(_) => false,
        },
{
    let t = trim_str(input);
    let tv = chars_of(t.as_str());
    if tv.len() == 0 {
        Err(TtsError::NoText)
    } else {
        Ok(t)
    }
}

/// Typographic quotes become ASCII ones, and newlines, carriage returns and
/// tabs become spaces.
pub open spec fn kokoro_char(c: char) -> char {
    if c == '\u{2019}' || c == '\u{2018}' {
        '\''
    } else if c == '\u{201C}' || c == '\u{201D}' {
        '"'
    } else if c == '\n' || c == '\r' || c == '\t' {
        ' '
    } else {
        c
    }
}

/// Demonstratives after a space are lower-cased.
pub open spec fn lower_inner_demonstratives(s: Seq<char>) -> Seq<char> {
    replace_all(
        replace_all(
            replace_all(replace_all(s, " This "@, " this "@), " That "@, " that "@),
            " These "@,
            " these "@,
        ),
        " Those "@,
        " those "@,
    )
}

/// A demonstrative that opens the text is lower-cased.
pub open spec fn lower_leading_demonstrative(s: Seq<char>) -> Seq<char> {
    replace_prefix(
        replace_prefix(
            replace_prefix(replace_prefix(s, "This "@, "this "@), "That "@, "that "@),
            "These "@,
            "these "@,
        ),
        "Those "@,
        "those "@,
    )
}

/// Text as handed to Kokoro: quotes folded, whitespace collapsed to single
/// spaces, and the demonstratives "This", "That", "These", "Those" written in
/// lower case where they start a word followed by a space.
pub open spec fn kokoro_text(text: Seq<char>) -> Seq<char> {
    lower_leading_demonstrative(
        lower_inner_demonstratives(collapse_ws(text.map_values(|c: char| kokoro_char(c)))),
    )
}

fn replace_str(v: &Vec<char>, from: &str, to: &str) -> (r: Vec<char>)
    requires
        from@.len() > 0,
    ensures
        r@ == replace_all(v@, from@, to@),
{
    let fv = chars_of(from);
    let tv = chars_of(to);
    chars_replace_all(v, &fv, &tv)
}

/// Prepares text for the Kokoro engine.
pub fn normalize_text_for_kokoro(text: &str) -> (r: String)
    ensures
        r@ == kokoro_text(text@),
{
    let v = chars_of(text);
    let mut m: Vec<char> = Vec::new();
    for i in 0..v.len()
        invariant
            v@ == text@,
            m@ == text@.map_values(|c: char| kokoro_char(c)).take(i as int),
    {
        let c = v[i];
        let d = if c == '\u{2019}' || c == '\u{2018}' {
            '\''
        } else if c == '\u{201C}' || c == '\u{201D}' {
            '"'
        } else if c == '\n' || c == '\r' || c == '\t' {
            ' '
        } else {
            c
        };
        m.push(d);
        assert(text@.map_values(|c: char| kokoro_char(c)).take(i + 1) =~= text@.map_values(
            |c: char| kokoro_char(c),
        ).take(i as int).push(kokoro_char(c)));
    }
    assert(m@ =~= text@.map_values(|c: char| kokoro_char(c)));
    let s = chars_collapse_ws(&m);
    proof {
        reveal_strlit(" This ");
        reveal_strlit(" That ");
        reveal_strlit(" These ");
        reveal_strlit(" Those ");
    }
    let s = replace_str(&s, " This ", " this ");
    let s = replace_str(&s, " That ", " that ");
    let s = replace_str(&s, " These ", " these ");
    let s = replace_str(&s, " Those ", " those ");
    let s = chars_replace_prefix(&s, "This ", "this ");
    let s = chars_replace_prefix(&s, "That ", "that ");
    let s = chars_replace_prefix(&s, "These ", "these ");
    let s = chars_replace_prefix(&s, "Those ", "those ");
    string_of(s.as_slice())
}

/// The text after every `{name}` of the variables is replaced by its value,
/// the variables taken in order.
pub open spec fn render(input: Seq<char>, vars: Seq<(Seq<char>, Seq<char>)>) -> Seq<char>
    decreases vars.len(),
{
    if vars.len() == 0 {
        input
    } else {
        let (k, v) = vars.last();
        replace_all(render(input, vars.drop_last()), seq!['{'] + k + seq!['}'], v)
    }
}

/// The view of template variables.
pub open spec fn vars_view(vars: Seq<(String, String)>) -> Seq<(Seq<char>, Seq<char>)> {
    vars.map_values(|p: (String, String)| (p.0@, p.1@))
}

/// Replaces each `{name}` in a command template by its value.
pub fn render_template(input: &str, vars: &Vec<(String, String)>) -> (r: String)
    ensures
        r@ == render(input@, vars_view(vars@)),
{
    let mut out = chars_of(input);
    for i in 0..vars.len()
        invariant
            out@ == render(input@, vars_view(vars@.take(i as int))),
    {
        let mut token: Vec<char> = Vec::new();
        token.push('{');
        let kv = chars_of(vars[i].0.as_str());
        push_all(&mut token, &kv);
        token.push('}');
        let vv = chars_of(vars[i].1.as_str());
        out = chars_replace_all(&out, &token, &vv);
        proof {
            let w = vars_view(vars@.take(i + 1));
            assert(w.drop_last() =~= vars_view(vars@.take(i as int)));
            assert(w.last() == (vars@[i as int].0@, vars@[i as int].1@));
            assert(token@ =~= seq!['{'] + vars@[i as int].0@ + seq!['}']);
        }
    }
    assert(vars@.take(vars@.len() as int) =~= vars@);
    string_of(out.as_slice())
}

/// The placeholder `{name}` of a template variable.
pub open spec fn placeholder(name: Seq<char>) -> Seq<char> {
    seq!['{'] + name + seq!['}']
}

/// Whether a text holds no `{`, so that no placeholder can occur in it.
pub open spec fn brace_free(s: Seq<char>) -> bool {
    forall|i: int| 0 <= i < s.len() ==> s[i] != '{'
}

/// Whether a name holds neither `{` nor `}`.
spec fn plain_name(k: Seq<char>) -> bool {
    forall|i: int| 0 <= i < k.len() ==> k[i] != '{' && k[i] != '}'
}

proof fn lemma_replace_absent(s: Seq<char>, pat: Seq<char>, r: Seq<char>)
    requires
        pat.len() > 0,
        !contains(s, pat),
    ensures
        replace_all(s, pat, r) == s,
    decreases s.len(),
{
    if s.len() > 0 {
        assert(!crate::text::occurs_at(s, pat, 0));
        let t = s.drop_first();
        assert forall|i: int| !crate::text::occurs_at(t, pat, i) by {
            if crate::text::occurs_at(t, pat, i) {
                assert(s.subrange(i + 1, i + 1 + pat.len()) =~= t.subrange(i, i + pat.len()));
                assert(crate::text::occurs_at(s, pat, i + 1));
            }
        }
        lemma_replace_absent(t, pat, r);
        assert(seq![s[0]] + t =~= s);
    }
}

proof fn lemma_replace_whole(pat: Seq<char>, r: Seq<char>)
    requires
        pat.len() > 0,
    ensures
        replace_all(pat, pat, r) == r,
{
    assert(pat.subrange(0, pat.len() as int) =~= pat);
    assert(crate::text::occurs_at(pat, pat, 0));
    let rest = pat.skip(pat.len() as int);
    assert(rest =~= Seq::<char>::empty());
    assert(replace_all(rest, pat, r) == rest);
    assert(replace_all(pat, pat, r) == r + replace_all(rest, pat, r));
    assert(r + rest =~= r);
}

/// A text without `{` holds no placeholder.
proof fn lemma_brace_free_has_no_placeholder(s: Seq<char>, k: Seq<char>)
    requires
        brace_free(s),
    ensures
        !contains(s, placeholder(k)),
{
    assert forall|i: int| !crate::text::occurs_at(s, placeholder(k), i) by {
        if crate::text::occurs_at(s, placeholder(k), i) {
            assert(s.subrange(i, i + placeholder(k).len())[0] == placeholder(k)[0]);
        }
    }
}

/// The placeholder of one plain name does not occur in that of another.
proof fn lemma_placeholders_distinct(a: Seq<char>, b: Seq<char>)
    requires
        plain_name(a),
        plain_name(b),
        a != b,
    ensures
        !contains(placeholder(a), placeholder(b)),
{
    let ta = placeholder(a);
    let tb = placeholder(b);
    assert forall|i: int| !crate::text::occurs_at(ta, tb, i) by {
        if crate::text::occurs_at(ta, tb, i) {
            let sub = ta.subrange(i, i + tb.len());
            assert(sub[0] == tb[0]);
            if i > 0 {
                assert(ta[i] == a[i - 1]);
            }
            assert(i == 0);
            let e: int = b.len() as int + 1;
            assert(sub[e] == tb[e]);
            if e < a.len() + 1 {
                assert(ta[e] == a[e - 1]);
            }
            assert(b.len() == a.len());
            assert forall|j: int| 0 <= j < a.len() implies a[j] == b[j] by {
                assert(sub[j + 1] == tb[j + 1]);
                assert(ta[j + 1] == a[j]);
                assert(tb[j + 1] == b[j]);
            }
            assert(a =~= b);
        }
    }
}

/// Rendering a template in which no placeholder of the variables occurs
/// leaves it as it is.
proof fn lemma_render_untouched(t: Seq<char>, vars: Seq<(Seq<char>, Seq<char>)>)
    requires
        forall|j: int| 0 <= j < vars.len() ==> !contains(t, #[trigger] placeholder(vars[j].0)),
    ensures
        render(t, vars) == t,
    decreases vars.len(),
{
    if vars.len() > 0 {
        let pre = vars.drop_last();
        assert forall|j: int| 0 <= j < pre.len() implies !contains(t, #[trigger] placeholder(pre[j].0)) by {
            assert(pre[j] == vars[j]);
        }
        lemma_render_untouched(t, pre);
        assert(!contains(t, placeholder(vars[vars.len() - 1].0)));
        lemma_replace_absent(t, placeholder(vars.last().0), vars.last().1);
    }
}

/// A template made of the placeholder of the `i`-th variable renders to
/// that variable's value, when the names are plain and distinct and the
/// value holds no `{`.
proof fn lemma_render_lone_placeholder(vars: Seq<(Seq<char>, Seq<char>)>, i: int)
    requires
        0 <= i < vars.len(),
        forall|j: int| 0 <= j < vars.len() ==> plain_name(#[trigger] vars[j].0),
        forall|j: int| 0 <= j < vars.len() && j != i ==> #[trigger] vars[j].0 != vars[i].0,
        brace_free(vars[i].1),
    ensures
        render(placeholder(vars[i].0), vars) == vars[i].1,
    decreases vars.len(),
{
    let t = placeholder(vars[i].0);
    let pre = vars.drop_last();
    if i < vars.len() - 1 {
        assert forall|j: int| 0 <= j < pre.len() implies plain_name(#[trigger] pre[j].0) by {
            assert(pre[j] == vars[j]);
        }
        assert forall|j: int| 0 <= j < pre.len() && j != i implies #[trigger] pre[j].0 != pre[i].0 by {
            assert(pre[j] == vars[j]);
        }
        lemma_render_lone_placeholder(pre, i);
        assert(pre[i] == vars[i]);
        lemma_brace_free_has_no_placeholder(vars[i].1, vars.last().0);
        lemma_replace_absent(vars[i].1, placeholder(vars.last().0), vars.last().1);
    } else {
        assert forall|j: int| 0 <= j < pre.len() implies !contains(t, #[trigger] placeholder(pre[j].0)) by {
            assert(pre[j] == vars[j]);
            assert(plain_name(vars[j].0));
            lemma_placeholders_distinct(vars[i].0, vars[j].0);
        }
        lemma_render_untouched(t, pre);
        lemma_replace_whole(t, vars[i].1);
    }
}

/// The command line of the built-in Piper integration.
pub const BUILTIN_PIPER_COMMAND: &'static str = "piper --model {model} --output_file {output}";

/// Piper uses the embedded runtime when its command is empty or the stock
/// one.
pub open spec fn uses_builtin_piper(command: Seq<char>) -> bool {
    command.len() == 0 || command == BUILTIN_PIPER_COMMAND@
}

/// Executable form of [`uses_builtin_piper`].
pub fn should_use_builtin_piper(command: &str) -> (r: bool)
    ensures
        r == uses_builtin_piper(command@),
{
    let v = chars_of(command);
    v.len() == 0 || chars_eq_str(&v, BUILTIN_PIPER_COMMAND)
}

/// Kokoro uses the built-in engine when its command is empty.
pub fn should_use_builtin_kokoro(command: &str) -> (r: bool)
    ensures
        r == (command@.len() == 0),
{
    let v = chars_of(command);
    v.len() == 0
}


/// How a backend synthesizes speech.
#[derive(Debug)]
pub enum BackendPlan {
    /// Run the embedded Piper runtime.
    EmbeddedPiper,
    /// Use the built-in Kokoro engine.
    BuiltinKokoro,
    /// Run a configured command; the text is written to its standard input
    /// when the command has no `{text}` placeholder.
    Command { argv: Vec<String>, text_on_stdin: bool },
}

/// The view of an optional string, or the empty text.
pub open spec fn or_empty(o: Option<String>) -> Seq<char> {
    match o {
        Some(s) => s@,
        None => Seq::empty(),
    }
}

/// The variables of a backend command template, in the order they are
/// substituted.
pub open spec fn backend_vars(
    cfg: TtsBackendConfig,
    text: Seq<char>,
    output_wav: Seq<char>,
) -> Seq<(Seq<char>, Seq<char>)> {
    seq![
        ("text"@, text),
        ("output"@, output_wav),
        ("model"@, or_empty(cfg.model_path)),
        ("voices"@, or_empty(cfg.voices_path)),
        ("voice"@, or_empty(cfg.voice)),
        ("language"@, or_empty(cfg.language)),
        ("speaker"@, match cfg.speaker {
            Some(n) => decimal(n as nat),
            None => Seq::empty(),
        }),
    ]
}

/// The text a speaker number is rendered as: its decimal digits, or nothing.
pub open spec fn speaker_text(speaker: Option<u32>) -> Seq<char> {
    match speaker {
        Some(n) => decimal(n as nat),
        None => Seq::empty(),
    }
}

/// In a rendered backend command each placeholder is bound to its own
/// field: a template made of one placeholder renders to that field, so
/// `{text}` gives the text, `{output}` the output file, `{model}` the model
/// path, `{voices}` the voices path, `{voice}` the voice, `{language}` the
/// language and `{speaker}` the speaker number, an absent field giving
/// nothing (for any value that holds no `{`, which a later placeholder
/// could otherwise match).
pub proof fn lemma_backend_placeholders_bind_their_fields(
    cfg: TtsBackendConfig,
    text: Seq<char>,
    output_wav: Seq<char>,
)
    ensures
        brace_free(text) ==> render("{text}"@, backend_vars(cfg, text, output_wav)) == text,
        brace_free(output_wav) ==> render("{output}"@, backend_vars(cfg, text, output_wav)) == output_wav,
        brace_free(or_empty(cfg.model_path)) ==> render("{model}"@, backend_vars(cfg, text, output_wav)) == or_empty(cfg.model_path),
        brace_free(or_empty(cfg.voices_path)) ==> render("{voices}"@, backend_vars(cfg, text, output_wav)) == or_empty(cfg.voices_path),
        brace_free(or_empty(cfg.voice)) ==> render("{voice}"@, backend_vars(cfg, text, output_wav)) == or_empty(cfg.voice),
        brace_free(or_empty(cfg.language)) ==> render("{language}"@, backend_vars(cfg, text, output_wav)) == or_empty(cfg.language),
        brace_free(speaker_text(cfg.speaker)) ==> render("{speaker}"@, backend_vars(cfg, text, output_wav)) == speaker_text(cfg.speaker),
{
    let vars = backend_vars(cfg, text, output_wav);
    reveal_strlit("text");
    reveal_strlit("{text}");
    reveal_strlit("output");
    reveal_strlit("{output}");
    reveal_strlit("model");
    reveal_strlit("{model}");
    reveal_strlit("voices");
    reveal_strlit("{voices}");
    reveal_strlit("voice");
    reveal_strlit("{voice}");
    reveal_strlit("language");
    reveal_strlit("{language}");
    reveal_strlit("speaker");
    reveal_strlit("{speaker}");
    assert(vars[6].1 == speaker_text(cfg.speaker));
    assert forall|j: int| 0 <= j < vars.len() implies plain_name(#[trigger] vars[j].0) by {
        assert(vars[j].0 == "text"@ || vars[j].0 == "output"@ || vars[j].0 == "model"@ || vars[j].0 == "voices"@
            || vars[j].0 == "voice"@ || vars[j].0 == "language"@ || vars[j].0 == "speaker"@);
    }
    assert forall|a: int, b: int| 0 <= a < vars.len() && 0 <= b < vars.len() && a != b implies #[trigger] vars[a].0
        != #[trigger] vars[b].0 by {
        if vars[a].0 == vars[b].0 {
            assert(vars[a].0.len() == vars[b].0.len());
            assert(vars[a].0[0] == vars[b].0[0]);
        }
    }
    assert("{text}"@ =~= placeholder("text"@));
    if brace_free(text) {
        lemma_render_lone_placeholder(vars, 0);
    }
    assert("{output}"@ =~= placeholder("output"@));
    if brace_free(output_wav) {
        lemma_render_lone_placeholder(vars, 1);
    }
    assert("{model}"@ =~= placeholder("model"@));
    if brace_free(or_empty(cfg.model_path)) {
        lemma_render_lone_placeholder(vars, 2);
    }
    assert("{voices}"@ =~= placeholder("voices"@));
    if brace_free(or_empty(cfg.voices_path)) {
        lemma_render_lone_placeholder(vars, 3);
    }
    assert("{voice}"@ =~= placeholder("voice"@));
    if brace_free(or_empty(cfg.voice)) {
        lemma_render_lone_placeholder(vars, 4);
    }
    assert("{language}"@ =~= placeholder("language"@));
    if brace_free(or_empty(cfg.language)) {
        lemma_render_lone_placeholder(vars, 5);
    }
    assert("{speaker}"@ =~= placeholder("speaker"@));
    if brace_free(speaker_text(cfg.speaker)) {
        lemma_render_lone_placeholder(vars, 6);
    }
}

/// Whether an engine uses its built-in implementation for this command.
pub open spec fn uses_builtin(engine: Engine, command: Seq<char>) -> bool {
    match engine {
        Engine::Piper => uses_builtin_piper(trim(command)),
        Engine::Kokoro => trim(command).len() == 0,
    }
}

fn opt_text(o: &Option<String>) -> (r: String)
    ensures
        r@ == or_empty(*o),
{
    match o {
        Some(s) => s.clone(),
        None => String::new(),
    }
}

fn pair(k: &str, v: String) -> (r: (String, String))
    ensures
        r.0@ == k@,
        r.1@ == v@,
{
    (String::from_str(k), v)
}

/// How the backend of `engine` synthesizes `text` into `output_wav`.
pub fn plan_backend(engine: Engine, cfg: &TtsBackendConfig, text: &str, output_wav: &str) -> (r:
    Result<BackendPlan, TtsError>)
    ensures
        match r {
            Ok(BackendPlan::EmbeddedPiper) => engine == Engine::Piper && uses_builtin(
                engine,
                cfg.command@,
            ),
            Ok(BackendPlan::BuiltinKokoro) => engine == Engine::Kokoro && uses_builtin(
                engine,
                cfg.command@,
            ),
            Ok(BackendPlan::Command { argv, text_on_stdin }) => {
                &&& !uses_builtin(engine, cfg.command@)
                &&& cfg.model_path is Some
                &&& shell_split(render(trim(cfg.command@), backend_vars(*cfg, text@, output_wav@)))
                    == Some(strings_view(argv@))
                &&& argv@.len() > 0
                &&& text_on_stdin == !contains(cfg.command@, TEXT_PLACEHOLDER@)
            },
            Err(TtsError::MissingModelPath) => !uses_builtin(engine, cfg.command@)
                && cfg.model_path is None,
            Err(TtsError::CommandParse) => {
                &&& !uses_builtin(engine, cfg.command@)
                &&& cfg.model_path is Some
                &&& shell_split(render(trim(cfg.command@), backend_vars(*cfg, text@, output_wav@)))
                    is None
            },
            Err(TtsError::EmptyInvocation) => {
                &&& !uses_builtin(engine, cfg.command@)
                &&& cfg.model_path is Some
                &&& shell_split(render(trim(cfg.command@), backend_vars(*cfg, text@, output_wav@)))
                    == Some(Seq::<Seq<char>>::empty())
            },
            Err(_) => false,
        },
{
    let command = trim_str(cfg.command.as_str());
    let is_piper = match engine {
        Engine::Piper => true,
        Engine::Kokoro => false,
    };
    if is_piper && should_use_builtin_piper(command.as_str()) {
        return Ok(BackendPlan::EmbeddedPiper);
    }
    if !is_piper && should_use_builtin_kokoro(command.as_str()) {
        return Ok(BackendPlan::BuiltinKokoro);
    }
    if cfg.model_path.is_none() {
        return Err(TtsError::MissingModelPath);
    }
    let cv = chars_of(command.as_str());
    if cv.len() == 0 {
        return Err(TtsError::EmptyCommand { engine });
    }
    let mut vars: Vec<(String, String)> = Vec::new();
    vars.push(pair("text", String::from_str(text)));
    vars.push(pair("output", String::from_str(output_wav)));
    vars.push(pair("model", opt_text(&cfg.model_path)));
    vars.push(pair("voices", opt_text(&cfg.voices_path)));
    vars.push(pair("voice", opt_text(&cfg.voice)));
    vars.push(pair("language", opt_text(&cfg.language)));
    let speaker = match cfg.speaker {
        Some(n) => {
            let mut d: Vec<char> = Vec::new();
            push_decimal(&mut d, n as u128);
            string_of(d.as_slice())
        },
        None => String::new(),
    };
    vars.push(pair("speaker", speaker));
    assert(vars_view(vars@) =~= backend_vars(*cfg, text@, output_wav@));
    let rendered = render_template(command.as_str(), &vars);
    let args = match split_words(rendered.as_str()) {
        Ok(a) => a,
        Err(_) => return Err(TtsError::CommandParse),
    };
    if args.len() == 0 {
        assert(strings_view(args@) =~= Seq::<Seq<char>>::empty());
        return Err(TtsError::EmptyInvocation);
    }
    let full = chars_of(cfg.command.as_str());
    let pv = chars_of(TEXT_PLACEHOLDER);
    let has_placeholder = chars_contain(&full, &pv);
    Ok(BackendPlan::Command { argv: args, text_on_stdin: !has_placeholder })
}

/// Speech parameters of a Piper preset, in thousandths: length scale, noise
/// scale and noise width.
pub open spec fn preset_millis(preset: PiperPreset) -> (u32, u32, u32) {
    match preset {
        PiperPreset::Masculine => (1100, 450, 700),
        PiperPreset::Natural => (1000, 600, 850),
        PiperPreset::Crisp => (950, 350, 550),
    }
}

/// Executable form of [`preset_millis`].
pub fn piper_preset_values(preset: PiperPreset) -> (r: (u32, u32, u32))
    ensures
        r == preset_millis(preset),
{
    match preset {
        PiperPreset::Masculine => (1100, 450, 700),
        PiperPreset::Natural => (1000, 600, 850),
        PiperPreset::Crisp => (950, 350, 550),
    }
}

/// A number of thousandths written with three decimals (`1100` is `1.100`).
pub open spec fn millis_text(m: u32) -> Seq<char> {
    let f = (m % 1000) as nat;
    decimal((m / 1000) as nat) + seq!['.', digit_char(f / 100), digit_char((f / 10) % 10),
        digit_char(f % 10)]
}

/// Executable form of [`millis_text`].
pub fn format_millis(m: u32) -> (r: String)
    ensures
        r@ == millis_text(m),
{
    let mut v: Vec<char> = Vec::new();
    push_decimal(&mut v, (m / 1000) as u128);
    v.push('.');
    let f = m % 1000;
    push_decimal(&mut v, (f / 100) as u128);
    push_decimal(&mut v, ((f / 10) % 10) as u128);
    push_decimal(&mut v, (f % 10) as u128);
    proof {
        assert(decimal(((f / 100) as u128) as nat) == seq![digit_char((f / 100) as nat)]);
        assert(decimal((((f / 10) % 10) as u128) as nat) == seq![digit_char(((f / 10) % 10) as nat)]);
        assert(decimal(((f % 10) as u128) as nat) == seq![digit_char((f % 10) as nat)]);
        assert(v@ =~= millis_text(m));
    }
    string_of(v.as_slice())
}

/// The arguments of the embedded Piper runtime.
pub open spec fn embedded_piper_argv(
    model: Seq<char>,
    output_wav: Seq<char>,
    preset: PiperPreset,
    speaker: Option<u32>,
) -> Seq<Seq<char>> {
    let (l, n, w) = preset_millis(preset);
    let base = seq![
        "--model"@,
        model,
        "--output_file"@,
        output_wav,
        "--length_scale"@,
        millis_text(l),
        "--noise_scale"@,
        millis_text(n),
        "--noise_w"@,
        millis_text(w),
    ];
    match speaker {
        Some(s) => base + seq!["--speaker"@, decimal(s as nat)],
        None => base,
    }
}

/// The arguments passed to the embedded Piper runtime (the text goes to its
/// standard input).
pub fn embedded_piper_args(cfg: &TtsBackendConfig, output_wav: &str, preset: PiperPreset) -> (r:
    Result<Vec<String>, TtsError>)
    ensures
        match r {
            Ok(argv) => cfg.model_path matches Some(m) && strings_view(argv@)
                == embedded_piper_argv(m@, output_wav@, preset, cfg.speaker),
            Err(TtsError::MissingModelPath) => cfg.model_path is None,
            Err(_) => false,
        },
{
    let model = match &cfg.model_path {
        Some(m) => m,
        None => return Err(TtsError::MissingModelPath),
    };
    let (l, n, w) = piper_preset_values(preset);
    let mut argv: Vec<String> = Vec::new();
    argv.push(String::from_str("--model"));
    argv.push(model.clone());
    argv.push(String::from_str("--output_file"));
    argv.push(String::from_str(output_wav));
    argv.push(String::from_str("--length_scale"));
    argv.push(format_millis(l));
    argv.push(String::from_str("--noise_scale"));
    argv.push(format_millis(n));
    argv.push(String::from_str("--noise_w"));
    argv.push(format_millis(w));
    if let Some(s) = cfg.speaker {
        argv.push(String::from_str("--speaker"));
        let mut d: Vec<char> = Vec::new();
        push_decimal(&mut d, s as u128);
        argv.push(string_of(d.as_slice()));
    }
    assert(strings_view(argv@) =~= embedded_piper_argv(model@, output_wav@, preset, cfg.speaker));
    Ok(argv)
}


/// Where the data of the text-to-speech helper lives: `<data>/models/tts`.
pub open spec fn tts_root(data_dir: Seq<char>) -> Seq<char> {
    path_join(path_join(data_dir, "models"@), "tts"@)
}

/// Default asset locations of a backend.
#[derive(Debug)]
pub struct DefaultBackendPaths {
    pub model: String,
    /// Piper's voice metadata, next to the model.
    pub piper_config: Option<String>,
    /// Kokoro's voice pack.
    pub voices: Option<String>,
}

/// The default model of an engine under the data directory.
pub open spec fn default_model_for(engine: Engine, data_dir: Seq<char>) -> Seq<char> {
    match engine {
        Engine::Piper => path_join(path_join(tts_root(data_dir), "piper"@), "en_US-lessac-medium.onnx"@),
        Engine::Kokoro => path_join(path_join(tts_root(data_dir), "kokoro"@), "kokoro-v1.0.onnx"@),
    }
}

/// The default asset locations of an engine, given the data directory.
pub fn default_backend_paths_in(engine: Engine, data_dir: &str) -> (r: DefaultBackendPaths)
    ensures
        r.model@ == default_model_for(engine, data_dir@),
        opt_view(r.piper_config) == (match engine {
            Engine::Piper => Some(default_model_for(engine, data_dir@) + ".json"@),
            Engine::Kokoro => None,
        }),
        opt_view(r.voices) == (match engine {
            Engine::Piper => None,
            Engine::Kokoro => Some(
                path_join(path_join(tts_root(data_dir@), "kokoro"@), "voices.bin"@),
            ),
        }),
{
    let models = join(data_dir, "models");
    let root = join(models.as_str(), "tts");
    match engine {
        Engine::Piper => {
            let dir = join(root.as_str(), "piper");
            let model = join(dir.as_str(), "en_US-lessac-medium.onnx");
            let mut cfg = model.clone();
            cfg.append(".json");
            DefaultBackendPaths { model, piper_config: Some(cfg), voices: None }
        },
        Engine::Kokoro => {
            let dir = join(root.as_str(), "kokoro");
            let model = join(dir.as_str(), "kokoro-v1.0.onnx");
            let voices = join(dir.as_str(), "voices.bin");
            DefaultBackendPaths { model, piper_config: None, voices: Some(voices) }
        },
    }
}

/// The default asset locations of an engine for the current user; fails
/// when no data directory is known.
pub fn default_backend_paths(engine: Engine) -> (r: Result<DefaultBackendPaths, TtsError>)
    ensures
        match r {
            Ok(p) => exists|d: Seq<char>| p.model@ == default_model_for(engine, d),
            Err(TtsError::NoDataDir) => true,
            Err(_) => false,
        },
{
    match data_dir() {
        Some(d) => Ok(default_backend_paths_in(engine, d.as_str())),
        None => Err(TtsError::NoDataDir),
    }
}

/// Where the embedded Piper runtime is unpacked: `<data>/models/tts/runtime/piper`.
pub open spec fn piper_runtime_root(data_dir: Seq<char>) -> Seq<char> {
    path_join(path_join(tts_root(data_dir), "runtime"@), "piper"@)
}

/// The Piper executable inside the unpacked runtime.
pub open spec fn piper_runtime_bin(data_dir: Seq<char>) -> Seq<char> {
    path_join(path_join(piper_runtime_root(data_dir), "piper"@), "piper"@)
}

/// The runtime directory and the executable of the embedded Piper runtime.
pub fn piper_runtime_paths_in(data_dir: &str) -> (r: (String, String))
    ensures
        r.0@ == piper_runtime_root(data_dir@),
        r.1@ == piper_runtime_bin(data_dir@),
{
    let models = join(data_dir, "models");
    let tts = join(models.as_str(), "tts");
    let runtime = join(tts.as_str(), "runtime");
    let root = join(runtime.as_str(), "piper");
    let inner = join(root.as_str(), "piper");
    let bin = join(inner.as_str(), "piper");
    (root, bin)
}

/// The assets a backend needs, and the configuration it runs with once they
/// are in place.
#[derive(Debug)]
pub struct AssetPlan {
    /// The backend configuration with its model (and voices) path filled in.
    pub backend: TtsBackendConfig,
    /// The model, downloaded from `backend.model_url` if missing.
    pub model_path: String,
    /// Piper's metadata file, fetched from `backend.config_url` if missing.
    pub piper_config_path: Option<String>,
    /// A metadata file to copy instead when no `config_url` is set.
    pub piper_config_fallback: Option<String>,
    /// Kokoro's voice pack, downloaded from `backend.voice_url` if missing.
    pub voices_path: Option<String>,
}

/// Name of the quantized Kokoro model, which the built-in engine cannot load.
pub const KOKORO_INT8_MODEL_FILE: &'static str = "kokoro-v1.0.int8.onnx";

/// The model URL a backend downloads from: for Kokoro without a model path,
/// the quantized model is replaced by the full-precision one.
pub open spec fn effective_model_url(engine: Engine, cfg: TtsBackendConfig) -> Option<Seq<char>> {
    if engine == Engine::Kokoro && cfg.model_path is None && (cfg.model_url matches Some(u)
        && contains(u@, KOKORO_INT8_MODEL_FILE@)) {
        Some(KOKORO_MODEL_URL@)
    } else {
        opt_view(cfg.model_url)
    }
}

fn copy_opt(o: &Option<String>) -> (r: Option<String>)
    ensures
        r == *o,
{
    match o {
        Some(s) => Some(s.clone()),
        None => None,
    }
}

/// Plans the assets of a backend from its configuration and the default
/// locations.
pub fn plan_backend_assets(engine: Engine, cfg: &TtsBackendConfig, defaults: &DefaultBackendPaths) -> (r: AssetPlan)
    ensures
        r.model_path@ == (match cfg.model_path {
            Some(m) => m@,
            None => defaults.model@,
        }),
        opt_view(r.backend.model_path) == Some(r.model_path@),
        opt_view(r.backend.model_url) == effective_model_url(engine, *cfg),
        r.backend.command == cfg.command,
        r.backend.runtime_path == cfg.runtime_path,
        r.backend.voice == cfg.voice,
        r.backend.language == cfg.language,
        r.backend.speaker == cfg.speaker,
        r.backend.runtime_url == cfg.runtime_url,
        r.backend.config_url == cfg.config_url,
        r.backend.voice_url == cfg.voice_url,
        opt_view(r.piper_config_path) == (match engine {
            Engine::Piper => Some(r.model_path@ + ".json"@),
            Engine::Kokoro => None,
        }),
        opt_view(r.piper_config_fallback) == (match (engine, defaults.piper_config) {
            (Engine::Piper, Some(f)) => if f@ != r.model_path@ + ".json"@ {
                Some(f@)
            } else {
                None
            },
            _ => None,
        }),
        opt_view(r.voices_path) == (match engine {
            Engine::Kokoro => match cfg.voices_path {
                Some(v) => Some(v@),
                None => opt_view(defaults.voices),
            },
            Engine::Piper => None,
        }),
        opt_view(r.backend.voices_path) == (match engine {
            Engine::Kokoro => match r.voices_path {
                Some(v) => Some(v@),
                None => opt_view(cfg.voices_path),
            },
            Engine::Piper => opt_view(cfg.voices_path),
        }),
{
    let is_kokoro = match engine {
        Engine::Kokoro => true,
        Engine::Piper => false,
    };
    let mut model_url = copy_opt(&cfg.model_url);
    if is_kokoro && cfg.model_path.is_none() {
        if let Some(u) = &cfg.model_url {
            let uv = chars_of(u.as_str());
            let pv = chars_of(KOKORO_INT8_MODEL_FILE);
            if chars_contain(&uv, &pv) {
                model_url = Some(String::from_str(KOKORO_MODEL_URL));
            }
        }
    }
    let model_path = match &cfg.model_path {
        Some(m) => m.clone(),
        None => defaults.model.clone(),
    };
    let mut piper_config_path: Option<String> = None;
    let mut piper_config_fallback: Option<String> = None;
    if !is_kokoro {
        let mut cfg_path = model_path.clone();
        cfg_path.append(".json");
        if let Some(f) = &defaults.piper_config {
            if !str_equal(f.as_str(), cfg_path.as_str()) {
                piper_config_fallback = Some(f.clone());
            }
        }
        piper_config_path = Some(cfg_path);
    }
    let mut voices_path: Option<String> = None;
    let mut backend_voices = copy_opt(&cfg.voices_path);
    if is_kokoro {
        voices_path = match &cfg.voices_path {
            Some(v) => Some(v.clone()),
            None => copy_opt(&defaults.voices),
        };
        if let Some(v) = &voices_path {
            backend_voices = Some(v.clone());
        }
    }
    let backend = TtsBackendConfig {
        command: cfg.command.clone(),
        model_path: Some(model_path.clone()),
        runtime_path: copy_opt(&cfg.runtime_path),
        voices_path: backend_voices,
        voice: copy_opt(&cfg.voice),
        language: copy_opt(&cfg.language),
        speaker: cfg.speaker,
        model_url,
        runtime_url: copy_opt(&cfg.runtime_url),
        config_url: copy_opt(&cfg.config_url),
        voice_url: copy_opt(&cfg.voice_url),
    };
    AssetPlan { backend, model_path, piper_config_path, piper_config_fallback, voices_path }
}

} // verus!
