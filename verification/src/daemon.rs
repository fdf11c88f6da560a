//! The daemon's decisions: recording state, transcription history, and the
//! reply to each control command.
use vstd::prelude::*;
use crate::ipc::{parse_line, Request, RequestView};
use crate::window::{last_n, lemma_last_n_is_tail, lemma_last_n_push};
use crate::text::{
    bool_text, chars_of, chars_replace_char, decimal, push_all, push_decimal, push_str_chars,
    replace_char, string_of, trim, trim_chars, trim_str,
};

verus! {

/// Number of history entries kept when the configuration does not say.
pub const DEFAULT_HISTORY_MAX_ENTRIES: usize = 100;

/// Recording state shared by the control socket and the segmenter.
#[derive(Clone, Copy, Debug, PartialEq, Eq, Structural)]
pub struct DaemonState {
    pub recording: bool,
}

impl DaemonState {
    /// Not recording.
    pub fn new() -> (s: Self)
        ensures
            !s.recording,
    {
        DaemonState { recording: false }
    }
}

/// One transcription kept in memory.
#[derive(Debug)]
pub struct HistoryEntry {
    pub unix_ms: u128,
    pub text: String,
}

/// The most recent transcriptions, oldest first.
pub struct History {
    entries: Vec<HistoryEntry>,
}

/// The view of a history entry.
pub open spec fn entry_view(e: HistoryEntry) -> (u128, Seq<char>) {
    (e.unix_ms, e.text@)
}

/// How many entries a history keeps: `max_entries`, but at least one.
pub open spec fn history_capacity(max_entries: usize) -> int {
    if max_entries < 1 {
        1
    } else {
        max_entries as int
    }
}

/// The history after recording an entry: the entry is appended and the
/// oldest entries beyond the capacity are dropped.
pub open spec fn record_entry(
    h: Seq<(u128, Seq<char>)>,
    e: (u128, Seq<char>),
    max_entries: usize,
) -> Seq<(u128, Seq<char>)> {
    let q = h.push(e);
    let cap = history_capacity(max_entries);
    if q.len() > cap {
        q.skip(q.len() - cap)
    } else {
        q
    }
}

/// One line of the `HISTORY` reply: the timestamp, a tab, and the text with
/// newlines turned into spaces, trimmed.
pub open spec fn history_line(e: (u128, Seq<char>)) -> Seq<char> {
    decimal(e.0 as nat) + "\t"@ + trim(replace_char(e.1, '\n', ' '))
}

/// The lines of the given entries, each preceded by a newline.
pub open spec fn history_lines(s: Seq<(u128, Seq<char>)>) -> Seq<char>
    decreases s.len(),
{
    if s.len() == 0 {
        Seq::empty()
    } else {
        history_lines(s.drop_last()) + "\n"@ + history_line(s.last())
    }
}

/// The entries a `HISTORY` request shows: the last `limit` ones, oldest first.
pub open spec fn shown_entries(h: Seq<(u128, Seq<char>)>, limit: usize) -> Seq<(u128, Seq<char>)> {
    if limit < h.len() {
        h.skip(h.len() - limit)
    } else {
        h
    }
}

/// The reply to `HISTORY limit`.
pub open spec fn history_reply(h: Seq<(u128, Seq<char>)>, limit: usize) -> Seq<char> {
    "OK"@ + history_lines(shown_entries(h, limit))
}

impl History {
    /// The entries, oldest first.
    pub closed spec fn view(&self) -> Seq<(u128, Seq<char>)> {
        self.entries@.map_values(|e: HistoryEntry| entry_view(e))
    }

    /// An empty history.
    pub fn new() -> (h: Self)
        ensures
            h.view() == Seq::<(u128, Seq<char>)>::empty(),
    {
        let h = History { entries: Vec::new() };
        assert(h.view() =~= Seq::<(u128, Seq<char>)>::empty());
        h
    }

    /// Number of entries held.
    pub fn len(&self) -> (r: usize)
        ensures
            r == self.view().len(),
    {
        self.entries.len()
    }

    /// Records a transcription, keeping at most `max_entries` (at least one)
    /// of the most recent entries.
    pub fn record(&mut self, unix_ms: u128, text: String, max_entries: usize)
        ensures
            final(self).view() == record_entry(old(self).view(), (unix_ms, text@), max_entries),
    {
        let ghost q = self.view().push((unix_ms, text@));
        self.entries.push(HistoryEntry { unix_ms, text });
        assert(self.view() =~= q);
        let cap = if max_entries < 1 {
            1
        } else {
            max_entries
        };
        let ghost mut dropped: int = 0;
        while self.entries.len() > cap
            invariant
                cap == history_capacity(max_entries),
                cap >= 1,
                0 <= dropped <= q.len(),
                self.view() == q.skip(dropped),
                self.entries@.len() == q.len() - dropped,
                dropped > 0 ==> q.len() - dropped >= cap,
            decreases self.entries@.len(),
        {
            let ghost before = self.entries@;
            self.entries.remove(0);
            proof {
                assert forall|k: int| 0 <= k < self.entries@.len() implies #[trigger] self.view()[k]
                    == q.skip(dropped + 1)[k] by {
                    assert(before.map_values(|e: HistoryEntry| entry_view(e))[k + 1] == q.skip(
                        dropped,
                    )[k + 1]);
                }
                assert(self.view() =~= q.skip(dropped + 1));
                dropped = dropped + 1;
            }
        }
        proof {
            if q.len() <= cap {
                assert(q.skip(0) == q);
            }
        }
    }

    /// Takes a transcription: a text that is blank (only whitespace) is
    /// dropped; any other is recorded as [`History::record`] does.  Returns
    /// whether the text was kept, and so is to be delivered to the hooks.
    pub fn record_transcript(&mut self, unix_ms: u128, text: String, max_entries: usize) -> (delivered: bool)
        ensures
            delivered == !is_blank(text@),
            final(self).view() == (if delivered {
                record_entry(old(self).view(), (unix_ms, text@), max_entries)
            } else {
                old(self).view()
            }),
    {
        let t = trim_str(text.as_str());
        if chars_of(t.as_str()).len() == 0 {
            return false;
        }
        self.record(unix_ms, text, max_entries);
        true
    }

    /// The reply to a `HISTORY limit` request.
    pub fn reply(&self, limit: usize) -> (r: String)
        ensures
            r@ == history_reply(self.view(), limit),
    {
        let n = self.entries.len();
        let first = if limit < n {
            n - limit
        } else {
            0
        };
        let ghost shown = shown_entries(self.view(), limit);
        let mut out = chars_of("OK");
        let ghost ok = out@;
        assert(shown =~= self.view().skip(first as int));
        for i in first..n
            invariant
                n == self.entries@.len(),
                first <= n,
                shown == self.view().skip(first as int),
                out@ == ok + history_lines(shown.take(i - first)),
        {
            let e = &self.entries[i];
            out.push('\n');
            push_decimal(&mut out, e.unix_ms);
            out.push('\t');
            let tv = chars_of(e.text.as_str());
            let nv = chars_replace_char(&tv, '\n', ' ');
            let trimmed = trim_chars(&nv);
            push_all(&mut out, &trimmed);
            proof {
                let ev = self.view()[i as int];
                assert(ev == entry_view(self.entries@[i as int]));
                let pre = shown.take(i - first);
                let post = shown.take(i - first + 1);
                assert(post.drop_last() =~= pre);
                assert(post.last() == ev);
                reveal_strlit("\t");
                reveal_strlit("\n");
                assert(out@ =~= ok + history_lines(pre) + "\n"@ + history_line(ev));
            }
        }
        assert(shown.take(n - first) =~= shown);
        string_of(out.as_slice())
    }
}

/// Work the daemon must do before it replies.
pub enum Action {
    /// Nothing: reply at once.
    Nothing,
    /// Signal shutdown (whether the signal is delivered or not), then reply.
    Shutdown,
    /// Reload the configuration; reply only if that succeeds.
    Reload,
    /// Run the output hook with this text; reply only if that succeeds.
    Output { text: String },
}

/// The daemon's answer to one control line.
pub struct Outcome {
    pub action: Action,
    pub reply: String,
}

/// Abstract form of an [`Action`].
pub enum ActionView {
    Nothing,
    Shutdown,
    Reload,
    Output { text: Seq<char> },
}

/// The view of an [`Action`].
pub open spec fn action_view(a: Action) -> ActionView {
    match a {
        Action::Nothing => ActionView::Nothing,
        Action::Shutdown => ActionView::Shutdown,
        Action::Reload => ActionView::Reload,
        Action::Output { text } => ActionView::Output { text: text@ },
    }
}

/// Reply to a line that is not a known command.
pub open spec fn unknown_reply() -> Seq<char> {
    "ERR unknown command"@
}

/// Reply after a successful reload.
pub open spec fn reload_reply() -> Seq<char> {
    "OK reloaded=true note=audio_vad_model_changes_apply_on_daemon_restart"@
}

/// `OK recording=<state>`.
pub open spec fn recording_reply(recording: bool) -> Seq<char> {
    "OK recording="@ + bool_text(recording)
}

/// The effect of a control line: the recording state afterwards, the work
/// to do, and the reply.
pub open spec fn command_effect(
    line: Seq<char>,
    recording: bool,
    h: Seq<(u128, Seq<char>)>,
) -> (bool, ActionView, Seq<char>) {
    match parse_line(trim(line)) {
        None => (recording, ActionView::Nothing, unknown_reply()),
        Some(RequestView::Toggle) => (!recording, ActionView::Nothing, recording_reply(!recording)),
        Some(RequestView::Start) => (true, ActionView::Nothing, recording_reply(true)),
        Some(RequestView::Stop) => (false, ActionView::Nothing, recording_reply(false)),
        Some(RequestView::Status) => (recording, ActionView::Nothing, recording_reply(recording)),
        Some(RequestView::Shutdown) => (
            recording,
            ActionView::Shutdown,
            "OK shutting_down=true"@,
        ),
        Some(RequestView::Reload) => (recording, ActionView::Reload, reload_reply()),
        Some(RequestView::History { limit }) => (
            recording,
            ActionView::Nothing,
            history_reply(h, limit),
        ),
        Some(RequestView::SendText { text }) => (
            recording,
            ActionView::Output { text },
            "OK"@,
        ),
    }
}

fn recording_reply_text(recording: bool) -> (r: String)
    ensures
        r@ == recording_reply(recording),
{
    let mut s = String::from_str("OK recording=");
    if recording {
        s.append("true");
    } else {
        s.append("false");
    }
    s
}

/// Handles one control line: updates the recording state and says what to
/// do and what to reply.
pub fn handle_command(line: &str, state: &mut DaemonState, history: &History) -> (o: Outcome)
    ensures
        ({
            let (rec, act, reply) = command_effect(line@, old(state).recording, history.view());
            &&& final(state).recording == rec
            &&& action_view(o.action) == act
            &&& o.reply@ == reply
        }),
{
    let trimmed = trim_str(line);
    match Request::parse_legacy(trimmed.as_str()) {
        None => Outcome { action: Action::Nothing, reply: String::from_str("ERR unknown command") },
        Some(Request::Toggle) => {
            state.recording = !state.recording;
            Outcome { action: Action::Nothing, reply: recording_reply_text(state.recording) }
        },
        Some(Request::Start) => {
            state.recording = true;
            Outcome { action: Action::Nothing, reply: recording_reply_text(true) }
        },
        Some(Request::Stop) => {
            state.recording = false;
            Outcome { action: Action::Nothing, reply: recording_reply_text(false) }
        },
        Some(Request::Status) => Outcome {
            action: Action::Nothing,
            reply: recording_reply_text(state.recording),
        },
        Some(Request::Shutdown) => Outcome {
            action: Action::Shutdown,
            reply: String::from_str("OK shutting_down=true"),
        },
        Some(Request::Reload) => Outcome {
            action: Action::Reload,
            reply: String::from_str(
                "OK reloaded=true note=audio_vad_model_changes_apply_on_daemon_restart",
            ),
        },
        Some(Request::History { limit }) => Outcome {
            action: Action::Nothing,
            reply: history.reply(limit),
        },
        Some(Request::SendText { text }) => Outcome {
            action: Action::Output { text },
            reply: String::from_str("OK"),
        },
    }
}

/// Finishes a reload once the configuration has been read: a configuration
/// that loaded replaces the running one and the reload reply is given; a
/// failure leaves the running configuration as it was and is the answer.
pub fn apply_reload<C, E>(runtime: &mut C, loaded: Result<C, E>) -> (r: Result<String, E>)
    ensures
        loaded is Ok ==> {
            &&& *final(runtime) == loaded->Ok_0
            &&& r is Ok
            &&& r->Ok_0@ == reload_reply()
        },
        loaded is Err ==> {
            &&& *final(runtime) == *old(runtime)
            &&& r is Err
            &&& r->Err_0 == loaded->Err_0
        },
{
    match loaded {
        Ok(c) => {
            *runtime = c;
            Ok(
                String::from_str(
                    "OK reloaded=true note=audio_vad_model_changes_apply_on_daemon_restart",
                ),
            )
        },
        Err(e) => Err(e),
    }
}

/// Toggling twice restores the recording state, and neither `STATUS` nor
/// `HISTORY` changes it.
pub proof fn lemma_toggle_twice_restores(recording: bool, h: Seq<(u128, Seq<char>)>)
    ensures
        command_effect("TOGGLE"@, command_effect("TOGGLE"@, recording, h).0, h).0 == recording,
        command_effect("STATUS"@, recording, h).0 == recording,
        command_effect("STATUS"@, recording, h).2 == recording_reply(recording),
        command_effect("START"@, recording, h).0,
        !command_effect("STOP"@, recording, h).0,
{
    reveal_strlit("TOGGLE");
    reveal_strlit("STATUS");
    reveal_strlit("START");
    reveal_strlit("STOP");
    crate::ipc::lemma_parse_command_line(RequestView::Toggle);
    crate::ipc::lemma_parse_command_line(RequestView::Status);
    crate::ipc::lemma_parse_command_line(RequestView::Start);
    crate::ipc::lemma_parse_command_line(RequestView::Stop);
    assert(trim("TOGGLE"@) == "TOGGLE"@);
    assert(trim("STATUS"@) == "STATUS"@);
    assert(trim("START"@) == "START"@);
    assert(trim("STOP"@) == "STOP"@);
}

/// The history never holds more than its capacity, and the newest entry is
/// always kept, last.
pub proof fn lemma_history_bounded(
    h: Seq<(u128, Seq<char>)>,
    e: (u128, Seq<char>),
    max_entries: usize,
)
    requires
        h.len() <= history_capacity(max_entries),
    ensures
        record_entry(h, e, max_entries).len() <= history_capacity(max_entries),
        record_entry(h, e, max_entries).last() == e,
        record_entry(h, e, max_entries).drop_last() == (if h.len() < history_capacity(
            max_entries,
        ) {
            h
        } else {
            h.drop_first()
        }),
{
    let q = h.push(e);
    let cap = history_capacity(max_entries);
    if q.len() > cap {
        assert(q.skip(q.len() - cap).drop_last() =~= h.drop_first());
    } else {
        assert(q.drop_last() =~= h);
    }
}

/// Whether a transcription is blank: nothing but whitespace.
pub open spec fn is_blank(text: Seq<char>) -> bool {
    trim(text).len() == 0
}

/// The transcriptions of a run that are not blank, in order.
pub open spec fn kept_transcripts(texts: Seq<(u128, Seq<char>)>) -> Seq<(u128, Seq<char>)>
    decreases texts.len(),
{
    if texts.len() == 0 {
        Seq::empty()
    } else {
        let k = kept_transcripts(texts.drop_last());
        if is_blank(texts.last().1) {
            k
        } else {
            k.push(texts.last())
        }
    }
}

/// The history after taking the transcriptions of a run, one by one, as
/// [`History::record_transcript`] does.
pub open spec fn history_of_run(
    h: Seq<(u128, Seq<char>)>,
    texts: Seq<(u128, Seq<char>)>,
    max_entries: usize,
) -> Seq<(u128, Seq<char>)>
    decreases texts.len(),
{
    if texts.len() == 0 {
        h
    } else {
        let h1 = history_of_run(h, texts.drop_last(), max_entries);
        if is_blank(texts.last().1) {
            h1
        } else {
            record_entry(h1, texts.last(), max_entries)
        }
    }
}

/// Over a whole run, starting from an empty history, the history holds
/// exactly the last `max(1, max_entries)` transcriptions that are not
/// blank, oldest first, each with its time stamp; blank ones are never
/// stored.
pub proof fn lemma_history_of_run(texts: Seq<(u128, Seq<char>)>, max_entries: usize)
    ensures
        history_of_run(Seq::empty(), texts, max_entries) == last_n(
            kept_transcripts(texts),
            history_capacity(max_entries),
        ),
        forall|i: int|
            0 <= i < history_of_run(Seq::empty(), texts, max_entries).len() ==> !is_blank(
                #[trigger] history_of_run(Seq::empty(), texts, max_entries)[i].1,
            ),
    decreases texts.len(),
{
    let cap = history_capacity(max_entries);
    if texts.len() == 0 {
        assert(last_n(Seq::<(u128, Seq<char>)>::empty(), cap) =~= Seq::<(u128, Seq<char>)>::empty());
    } else {
        lemma_history_of_run(texts.drop_last(), max_entries);
        let k = kept_transcripts(texts.drop_last());
        if !is_blank(texts.last().1) {
            lemma_last_n_push(k, texts.last(), cap);
        }
    }
    lemma_kept_not_blank(texts);
    lemma_last_n_is_tail(kept_transcripts(texts), cap);
    let r = history_of_run(Seq::empty(), texts, max_entries);
    let kt = kept_transcripts(texts);
    assert forall|i: int| 0 <= i < r.len() implies !is_blank(#[trigger] r[i].1) by {
        assert(r[i] == kt[kt.len() - r.len() + i]);
    }
}

proof fn lemma_kept_not_blank(texts: Seq<(u128, Seq<char>)>)
    ensures
        forall|i: int|
            0 <= i < kept_transcripts(texts).len() ==> !is_blank(#[trigger] kept_transcripts(texts)[i].1),
    decreases texts.len(),
{
    if texts.len() > 0 {
        lemma_kept_not_blank(texts.drop_last());
        let k = kept_transcripts(texts.drop_last());
        let kt = kept_transcripts(texts);
        assert forall|i: int| 0 <= i < kt.len() implies !is_blank(#[trigger] kt[i].1) by {
            if i < k.len() {
                assert(kt[i] == k[i]);
            }
        }
    }
}

} // verus!
