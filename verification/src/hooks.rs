//! The commands run after a transcription: the output hook that types the
//! text, and the sound hook that signals it.
use vstd::prelude::*;
use crate::text::{
    occurs_at, chars_contain, chars_of, chars_replace_all, contains, is_whitespace, is_ws, replace_all,
    string_of, trim, trim_chars,
};

verus! {

#[verifier::external_type_specification]
#[verifier::external_body]
pub struct ExShellParseError(shell_words::ParseError);

/// What `shell_words::split` returns for a command line: the words, or
/// nothing when the quoting is unterminated.
pub uninterp spec fn shell_split(s: Seq<char>) -> Option<Seq<Seq<char>>>;

/// The views of a list of strings.
pub open spec fn strings_view(v: Seq<String>) -> Seq<Seq<char>> {
    v.map_values(|w: String| w@)
}

/// `shell_words::split`: splits a command line into words as a POSIX shell
/// would (quotes, backslash escapes, `#` comments).  Its result depends on
/// the text alone and is named, not described.
#[verifier::external_body]
pub(crate) fn split_words(s: &str) -> (r: Result<Vec<String>, shell_words::ParseError>)
    ensures
        r is Ok <==> shell_split(s@) is Some,
        r matches Ok(v) ==> shell_split(s@) == Some(strings_view(v@)),
{
    shell_words::split(s)
}

/// A hook command line could not be split into words.
#[derive(Clone, Copy, Debug, PartialEq, Eq, Structural)]
pub enum HookError {
    /// The output command (`[output].command`) has unbalanced quoting.
    OutputCommand,
    /// The sound command (`[sound].command`) has unbalanced quoting.
    SoundCommand,
}

/// The placeholder replaced by the transcribed text.
pub const TEXT_PLACEHOLDER: &'static str = "{text}";

/// The text handed to the output hook: followed by a space unless it
/// already ends with whitespace.
pub open spec fn hook_text(text: Seq<char>) -> Seq<char> {
    if text.len() > 0 && is_ws(text.last()) {
        text
    } else {
        text.push(' ')
    }
}

/// The arguments of the output hook: `{text}` replaced in every word; if no
/// word holds it, the text is appended as a last argument.
pub open spec fn output_argv(words: Seq<Seq<char>>, t: Seq<char>) -> Seq<Seq<char>> {
    let mapped = words.map_values(|w: Seq<char>| replace_all(w, TEXT_PLACEHOLDER@, t));
    if exists|i: int| 0 <= i < words.len() && contains(#[trigger] words[i], TEXT_PLACEHOLDER@) {
        mapped
    } else {
        mapped.push(t)
    }
}

/// The command the output hook runs for a text: none when the configured
/// command is blank or has no words; an error when it cannot be split.
pub open spec fn output_invocation(text: Seq<char>, command: Seq<char>) -> Result<
    Option<Seq<Seq<char>>>,
    HookError,
> {
    let c = trim(command);
    if c.len() == 0 {
        Ok(None)
    } else {
        match shell_split(c) {
            None => Err(HookError::OutputCommand),
            Some(words) => if words.len() == 0 {
                Ok(None)
            } else {
                Ok(Some(output_argv(words, hook_text(text))))
            },
        }
    }
}

/// The view of an optional argument vector.
pub open spec fn argv_view(r: Result<Option<Vec<String>>, HookError>) -> Result<
    Option<Seq<Seq<char>>>,
    HookError,
> {
    match r {
        Ok(Some(v)) => Ok(Some(strings_view(v@))),
        Ok(None) => Ok(None),
        Err(e) => Err(e),
    }
}

/// The program and arguments the output hook runs to deliver `text`.
pub fn output_hook_argv(text: &str, command: &str) -> (r: Result<Option<Vec<String>>, HookError>)
    ensures
        argv_view(r) == output_invocation(text@, command@),
{
    let cv = chars_of(command);
    let c = trim_chars(&cv);
    if c.len() == 0 {
        return Ok(None);
    }
    let cs = string_of(c.as_slice());
    let words = match split_words(cs.as_str()) {
        Ok(w) => w,
        Err(_) => return Err(HookError::OutputCommand),
    };
    if words.len() == 0 {
        return Ok(None);
    }
    let mut tv = chars_of(text);
    if !(tv.len() > 0 && is_whitespace(tv[tv.len() - 1])) {
        tv.push(' ');
    }
    let ghost t = hook_text(text@);
    assert(tv@ == t);
    let pv = chars_of(TEXT_PLACEHOLDER);
    proof {
        reveal_strlit("{text}");
    }
    let ghost ws = strings_view(words@);
    let mut out: Vec<String> = Vec::new();
    let mut replaced = false;
    for i in 0..words.len()
        invariant
            pv@ == TEXT_PLACEHOLDER@,
            pv@.len() > 0,
            tv@ == t,
            ws == strings_view(words@),
            strings_view(out@) == ws.take(i as int).map_values(
                |w: Seq<char>| replace_all(w, TEXT_PLACEHOLDER@, t),
            ),
            replaced == exists|k: int| 0 <= k < i && contains(#[trigger] ws[k], TEXT_PLACEHOLDER@),
    {
        let wv = chars_of(words[i].as_str());
        if chars_contain(&wv, &pv) {
            replaced = true;
        }
        let nv = chars_replace_all(&wv, &pv, &tv);
        let ghost before = out@;
        out.push(string_of(nv.as_slice()));
        proof {
            assert(ws[i as int] == words@[i as int]@);
            assert(strings_view(out@) =~= strings_view(before).push(nv@));
            assert(ws.take(i + 1) =~= ws.take(i as int).push(ws[i as int]));
            assert(ws.take(i + 1).map_values(|w: Seq<char>| replace_all(w, TEXT_PLACEHOLDER@, t))
                =~= ws.take(i as int).map_values(
                |w: Seq<char>| replace_all(w, TEXT_PLACEHOLDER@, t),
            ).push(replace_all(ws[i as int], TEXT_PLACEHOLDER@, t)));
            assert(strings_view(out@) =~= ws.take(i + 1).map_values(
                |w: Seq<char>| replace_all(w, TEXT_PLACEHOLDER@, t),
            ));
        }
    }
    assert(ws.take(words@.len() as int) == ws);
    if !replaced {
        out.push(string_of(tv.as_slice()));
        assert(strings_view(out@) =~= ws.map_values(
            |w: Seq<char>| replace_all(w, TEXT_PLACEHOLDER@, t),
        ).push(t));
    }
    Ok(Some(out))
}

/// What the sound hook does after a transcription.
#[derive(Debug)]
pub enum SoundPlan {
    /// Sound feedback is disabled, or the command has no words.
    Silent,
    /// No command is configured: play the built-in tone.
    BuiltinTone,
    /// Run this program with these arguments.
    Run { argv: Vec<String> },
}

/// Abstract form of a [`SoundPlan`].
pub enum SoundPlanView {
    Silent,
    BuiltinTone,
    Run { argv: Seq<Seq<char>> },
}

/// The view of a sound plan result.
pub open spec fn sound_plan_view(r: Result<SoundPlan, HookError>) -> Result<SoundPlanView, HookError> {
    match r {
        Ok(SoundPlan::Silent) => Ok(SoundPlanView::Silent),
        Ok(SoundPlan::BuiltinTone) => Ok(SoundPlanView::BuiltinTone),
        Ok(SoundPlan::Run { argv }) => Ok(SoundPlanView::Run { argv: strings_view(argv@) }),
        Err(e) => Err(e),
    }
}

/// What the sound hook does, given whether it is enabled and its command.
pub open spec fn sound_decision(enabled: bool, command: Seq<char>) -> Result<SoundPlanView, HookError> {
    let c = trim(command);
    if !enabled {
        Ok(SoundPlanView::Silent)
    } else if c.len() == 0 {
        Ok(SoundPlanView::BuiltinTone)
    } else {
        match shell_split(c) {
            None => Err(HookError::SoundCommand),
            Some(words) => if words.len() == 0 {
                Ok(SoundPlanView::Silent)
            } else {
                Ok(SoundPlanView::Run { argv: words })
            },
        }
    }
}

/// Decides what the sound hook does.
pub fn sound_plan(enabled: bool, command: &str) -> (r: Result<SoundPlan, HookError>)
    ensures
        sound_plan_view(r) == sound_decision(enabled, command@),
{
    if !enabled {
        return Ok(SoundPlan::Silent);
    }
    let cv = chars_of(command);
    let c = trim_chars(&cv);
    if c.len() == 0 {
        return Ok(SoundPlan::BuiltinTone);
    }
    let cs = string_of(c.as_slice());
    match split_words(cs.as_str()) {
        Ok(words) => if words.len() == 0 {
            Ok(SoundPlan::Silent)
        } else {
            Ok(SoundPlan::Run { argv: words })
        },
        Err(_) => Err(HookError::SoundCommand),
    }
}

/// The text delivered by the output hook always ends with whitespace, and a
/// command that has words always yields a program to run.
pub proof fn lemma_output_text_ends_with_whitespace(text: Seq<char>, command: Seq<char>)
    ensures
        hook_text(text).len() > 0 && is_ws(hook_text(text).last()),
        output_invocation(text, command) matches Ok(Some(argv)) ==> argv.len() > 0,
{
    assert(is_ws(' '));
}

/// When no word of the output command holds `{text}`, the command runs
/// unchanged with the text appended as its last argument.
pub proof fn lemma_text_appended_without_placeholder(
    text: Seq<char>,
    command: Seq<char>,
    words: Seq<Seq<char>>,
)
    requires
        trim(command).len() > 0,
        shell_split(trim(command)) == Some(words),
        words.len() > 0,
        forall|i: int| 0 <= i < words.len() ==> !contains(#[trigger] words[i], TEXT_PLACEHOLDER@),
    ensures
        output_invocation(text, command) == Ok::<Option<Seq<Seq<char>>>, HookError>(
            Some(words.push(hook_text(text))),
        ),
{
    reveal_strlit("{text}");
    let t = hook_text(text);
    let mapped = words.map_values(|w: Seq<char>| replace_all(w, TEXT_PLACEHOLDER@, t));
    assert forall|i: int| 0 <= i < words.len() implies #[trigger] mapped[i] == words[i] by {
        lemma_replace_absent(words[i], TEXT_PLACEHOLDER@, t);
    }
    assert(mapped =~= words);
}

/// Replacing a pattern that does not occur changes nothing.
pub proof fn lemma_replace_absent(s: Seq<char>, p: Seq<char>, r: Seq<char>)
    requires
        !contains(s, p),
    ensures
        replace_all(s, p, r) == s,
    decreases s.len(),
{
    if p.len() > 0 && s.len() > 0 {
        assert(!occurs_at(s, p, 0));
        let t = s.drop_first();
        assert forall|j: int| !occurs_at(t, p, j) by {
            if occurs_at(t, p, j) {
                assert(s.subrange(j + 1, j + 1 + p.len()) =~= t.subrange(j, j + p.len()));
                assert(occurs_at(s, p, j + 1));
            }
        }
        lemma_replace_absent(t, p, r);
        assert(seq![s[0]] + t =~= s);
    }
}

} // verus!
