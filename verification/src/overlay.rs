//! Decisions of the overlay indicator: which executable to launch, how its
//! command line is read, and what a status reply says.
use vstd::prelude::*;
use crate::errors::{error_code_text, format_error, ErrorCode};
use crate::paths::{file_name, join, parent, path_eq, path_join, std_path_eq, std_path_file_name, std_path_parent};
use crate::text::{chars_contain, chars_occur_at, chars_of, contains, first_word, first_word_from, occurs_at, push_all, push_str_chars, string_of, str_equal};
use crate::dirs::opt_view;
use crate::hooks::strings_view;

verus! {

/// `s` with `c` appended unless a path equal to `c` is already there.
pub open spec fn push_unique(s: Seq<Seq<char>>, c: Seq<char>) -> Seq<Seq<char>> {
    if exists|i: int| 0 <= i < s.len() && std_path_eq(#[trigger] s[i], c) {
        s
    } else {
        s.push(c)
    }
}

/// The overlay executables to try, in order: next to the running executable
/// `<name>-overlay`, `voicetext-overlay` and `voice-cmd-overlay`, then the
/// two bare names (looked up in `PATH`); paths equal to an earlier one are
/// skipped.
pub open spec fn overlay_candidate_list(current_exe: Option<Seq<char>>) -> Seq<Seq<char>> {
    let near = match current_exe {
        Some(e) => match std_path_parent(e) {
            Some(p) => {
                let first = match std_path_file_name(e) {
                    Some(n) => push_unique(Seq::empty(), path_join(p, n + "-overlay"@)),
                    None => Seq::empty(),
                };
                push_unique(
                    push_unique(first, path_join(p, "voicetext-overlay"@)),
                    path_join(p, "voice-cmd-overlay"@),
                )
            },
            None => Seq::empty(),
        },
        None => Seq::empty(),
    };
    push_unique(push_unique(near, "voicetext-overlay"@), "voice-cmd-overlay"@)
}

fn push_unique_exec(v: &mut Vec<String>, c: String)
    ensures
        strings_view(final(v)@) == push_unique(strings_view(old(v)@), c@),
{
    let ghost s = strings_view(v@);
    let mut i: usize = 0;
    while i < v.len()
        invariant
            s == strings_view(v@),
            i <= v@.len(),
            forall|k: int| 0 <= k < i ==> !std_path_eq(#[trigger] s[k], c@),
        decreases v@.len() - i,
    {
        if path_eq(v[i].as_str(), c.as_str()) {
            assert(std_path_eq(s[i as int], c@));
            return;
        }
        i = i + 1;
    }
    v.push(c);
    assert(strings_view(v@) =~= s.push(c@));
}

fn overlay_name(name: &str) -> (r: String)
    ensures
        r@ == name@ + "-overlay"@,
{
    let mut s = String::from_str(name);
    s.append("-overlay");
    s
}

/// The overlay executables to try, given the path of the running executable.
pub fn overlay_candidates(current_exe: Option<&str>) -> (r: Vec<String>)
    ensures
        strings_view(r@) == overlay_candidate_list(crate::dirs::opt_str_view(current_exe)),
{
    let mut v: Vec<String> = Vec::new();
    assert(strings_view(v@) =~= Seq::<Seq<char>>::empty());
    if let Some(exe) = current_exe {
        if let Some(p) = parent(exe) {
            if let Some(n) = file_name(exe) {
                let name = overlay_name(n.as_str());
                push_unique_exec(&mut v, join(p.as_str(), name.as_str()));
            }
            push_unique_exec(&mut v, join(p.as_str(), "voicetext-overlay"));
            push_unique_exec(&mut v, join(p.as_str(), "voice-cmd-overlay"));
        }
    }
    push_unique_exec(&mut v, String::from_str("voicetext-overlay"));
    push_unique_exec(&mut v, String::from_str("voice-cmd-overlay"));
    v
}

/// No two candidates are equal paths, and the two bare names are always
/// among them (or a path equal to them is).
pub proof fn lemma_overlay_candidates_distinct(current_exe: Option<Seq<char>>)
    ensures
        ({
            let c = overlay_candidate_list(current_exe);
            &&& forall|i: int, j: int|
                0 <= i < j < c.len() ==> !std_path_eq(#[trigger] c[i], #[trigger] c[j])
            &&& exists|i: int| 0 <= i < c.len() && (c[i] == "voicetext-overlay"@ || std_path_eq(
                c[i],
                "voicetext-overlay"@,
            ))
            &&& exists|i: int| 0 <= i < c.len() && (c[i] == "voice-cmd-overlay"@ || std_path_eq(
                c[i],
                "voice-cmd-overlay"@,
            ))
        }),
{
    let near = match current_exe {
        Some(e) => match std_path_parent(e) {
            Some(p) => {
                let first = match std_path_file_name(e) {
                    Some(n) => {
                        lemma_push_unique_distinct(Seq::empty(), path_join(p, n + "-overlay"@));
                        push_unique(Seq::empty(), path_join(p, n + "-overlay"@))
                    },
                    None => Seq::empty(),
                };
                lemma_push_unique_distinct(first, path_join(p, "voicetext-overlay"@));
                let second = push_unique(first, path_join(p, "voicetext-overlay"@));
                lemma_push_unique_distinct(second, path_join(p, "voice-cmd-overlay"@));
                push_unique(second, path_join(p, "voice-cmd-overlay"@))
            },
            None => Seq::empty(),
        },
        None => Seq::empty(),
    };
    assert(near == match current_exe {
        Some(e) => match std_path_parent(e) {
            Some(p) => {
                let first = match std_path_file_name(e) {
                    Some(n) => push_unique(Seq::empty(), path_join(p, n + "-overlay"@)),
                    None => Seq::empty(),
                };
                push_unique(
                    push_unique(first, path_join(p, "voicetext-overlay"@)),
                    path_join(p, "voice-cmd-overlay"@),
                )
            },
            None => Seq::empty(),
        },
        None => Seq::<Seq<char>>::empty(),
    });
    lemma_push_unique_distinct(near, "voicetext-overlay"@);
    let with_vt = push_unique(near, "voicetext-overlay"@);
    lemma_push_unique_distinct(with_vt, "voice-cmd-overlay"@);
    lemma_push_unique_contains(near, "voicetext-overlay"@);
    lemma_push_unique_contains(with_vt, "voice-cmd-overlay"@);
    let k = choose|i: int| 0 <= i < with_vt.len() && (with_vt[i] == "voicetext-overlay"@ || std_path_eq(
        with_vt[i],
        "voicetext-overlay"@,
    ));
    lemma_push_unique_keeps(with_vt, "voice-cmd-overlay"@, k);
}

/// When the running executable has a directory and a name, its `-overlay`
/// sibling is the first candidate.
pub proof fn lemma_overlay_sibling_first(e: Seq<char>, p: Seq<char>, n: Seq<char>)
    requires
        std_path_parent(e) == Some(p),
        std_path_file_name(e) == Some(n),
    ensures
        overlay_candidate_list(Some(e)).len() >= 1,
        overlay_candidate_list(Some(e))[0] == path_join(p, n + "-overlay"@),
{
    let first = push_unique(Seq::empty(), path_join(p, n + "-overlay"@));
    assert(first.len() == 1 && first[0] == path_join(p, n + "-overlay"@));
    let second = push_unique(first, path_join(p, "voicetext-overlay"@));
    lemma_push_unique_keeps(first, path_join(p, "voicetext-overlay"@), 0);
    let near = push_unique(second, path_join(p, "voice-cmd-overlay"@));
    lemma_push_unique_keeps(second, path_join(p, "voice-cmd-overlay"@), 0);
    let with_vt = push_unique(near, "voicetext-overlay"@);
    lemma_push_unique_keeps(near, "voicetext-overlay"@, 0);
    lemma_push_unique_keeps(with_vt, "voice-cmd-overlay"@, 0);
}

proof fn lemma_push_unique_distinct(s: Seq<Seq<char>>, c: Seq<char>)
    ensures
        (forall|i: int, j: int| 0 <= i < j < s.len() ==> !std_path_eq(#[trigger] s[i], #[trigger] s[j]))
            ==> (forall|i: int, j: int|
            0 <= i < j < push_unique(s, c).len() ==> !std_path_eq(
                #[trigger] push_unique(s, c)[i],
                #[trigger] push_unique(s, c)[j],
            )),
{
    let t = push_unique(s, c);
    if forall|i: int, j: int| 0 <= i < j < s.len() ==> !std_path_eq(#[trigger] s[i], #[trigger] s[j]) {
        assert forall|i: int, j: int| 0 <= i < j < t.len() implies !std_path_eq(
            #[trigger] t[i],
            #[trigger] t[j],
        ) by {
            if j == s.len() {
                assert(t[j] == c);
                assert(t[i] == s[i]);
            } else {
                assert(t[i] == s[i] && t[j] == s[j]);
            }
        }
    }
}

proof fn lemma_push_unique_contains(s: Seq<Seq<char>>, c: Seq<char>)
    ensures
        exists|i: int| 0 <= i < push_unique(s, c).len() && (push_unique(s, c)[i] == c || std_path_eq(
            push_unique(s, c)[i],
            c,
        )),
{
    if exists|i: int| 0 <= i < s.len() && std_path_eq(#[trigger] s[i], c) {
        let i = choose|i: int| 0 <= i < s.len() && std_path_eq(#[trigger] s[i], c);
        assert(push_unique(s, c)[i] == s[i]);
    } else {
        assert(push_unique(s, c)[s.len() as int] == c);
    }
}

proof fn lemma_push_unique_keeps(s: Seq<Seq<char>>, c: Seq<char>, i: int)
    requires
        0 <= i < s.len(),
    ensures
        push_unique(s, c)[i] == s[i],
        push_unique(s, c).len() >= s.len(),
{
}

/// The overlay's command line.
#[derive(Debug)]
pub struct OverlayArgs {
    pub socket_path: String,
    pub foreground: bool,
}

/// What the overlay's command line asks for.
#[derive(Debug)]
pub enum OverlayCommand {
    /// Run with these settings.
    Run(OverlayArgs),
    /// Print the usage and exit.
    Help,
}

/// Reads the overlay's arguments (without the program name) from
/// `socket`/`fg` on: `--socket <path>` sets the socket (ignored without a
/// value), `--fg` runs in the foreground, `-h`/`--help` asks for the usage;
/// anything else is ignored.  `None` stands for the usage.
pub open spec fn overlay_args_from(args: Seq<Seq<char>>, socket: Seq<char>, fg: bool) -> Option<
    (Seq<char>, bool),
>
    decreases args.len(),
{
    if args.len() == 0 {
        Some((socket, fg))
    } else if args[0] == "--socket"@ {
        if args.len() > 1 {
            overlay_args_from(args.skip(2), args[1], fg)
        } else {
            Some((socket, fg))
        }
    } else if args[0] == "--fg"@ {
        overlay_args_from(args.drop_first(), socket, true)
    } else if args[0] == "-h"@ || args[0] == "--help"@ {
        None
    } else {
        overlay_args_from(args.drop_first(), socket, fg)
    }
}

/// The view of an overlay command.
pub open spec fn overlay_command_view(c: OverlayCommand) -> Option<(Seq<char>, bool)> {
    match c {
        OverlayCommand::Run(a) => Some((a.socket_path@, a.foreground)),
        OverlayCommand::Help => None,
    }
}

/// Parses the overlay's arguments (without the program name), starting from
/// the default socket.
pub fn parse_overlay_args(args: &Vec<String>, default_socket: String) -> (r: OverlayCommand)
    ensures
        overlay_command_view(r) == overlay_args_from(strings_view(args@), default_socket@, false),
{
    let ghost all = strings_view(args@);
    let mut socket = default_socket;
    let mut fg = false;
    let mut i: usize = 0;
    assert(all.skip(0) =~= all);
    while i < args.len()
        invariant
            all == strings_view(args@),
            i <= args@.len(),
            overlay_args_from(all, default_socket@, false) == overlay_args_from(
                all.skip(i as int),
                socket@,
                fg,
            ),
        decreases args@.len() - i,
    {
        let ghost rest = all.skip(i as int);
        assert(rest[0] == args@[i as int]@);
        let a = args[i].as_str();
        if str_equal(a, "--socket") {
            if i + 1 < args.len() {
                assert(rest[1] == args@[i + 1]@);
                assert(rest.skip(2) =~= all.skip(i + 2));
                socket = args[i + 1].clone();
                i = i + 2;
            } else {
                return OverlayCommand::Run(OverlayArgs { socket_path: socket, foreground: fg });
            }
        } else if str_equal(a, "--fg") {
            fg = true;
            assert(rest.drop_first() =~= all.skip(i + 1));
            i = i + 1;
        } else if str_equal(a, "-h") || str_equal(a, "--help") {
            return OverlayCommand::Help;
        } else {
            assert(rest.drop_first() =~= all.skip(i + 1));
            i = i + 1;
        }
    }
    assert(all.skip(i as int) =~= Seq::<Seq<char>>::empty());
    OverlayCommand::Run(OverlayArgs { socket_path: socket, foreground: fg })
}

/// Whether a status reply says that recording is on.
pub open spec fn reports_recording(reply: Seq<char>) -> bool {
    contains(reply, "recording=true"@)
}

/// Executable form of [`reports_recording`].
pub fn status_reports_recording(reply: &str) -> (r: bool)
    ensures
        r == reports_recording(reply@),
{
    let v = chars_of(reply);
    let p = chars_of("recording=true");
    chars_contain(&v, &p)
}

/// The error reported when no overlay could be launched.
pub open spec fn overlay_launch_error_text(attempts: Seq<Seq<char>>, log_path: Seq<char>) -> Seq<char> {
    if attempts.len() == 0 {
        error_code_text(ErrorCode::Overlay) + ":"@ + "could not find an overlay executable"@
    } else {
        error_code_text(ErrorCode::Overlay) + ":"@ + "could not launch overlay executable"@
            + "; attempts: "@ + crate::text::join_with(attempts, ", "@) + "; log="@ + log_path
    }
}

/// Builds the error reported when no overlay could be launched, from the
/// failed attempts (`<candidate> (<error>)`) and the launch log.
pub fn overlay_launch_error(attempts: &Vec<String>, log_path: &str) -> (r: String)
    ensures
        r@ == overlay_launch_error_text(strings_view(attempts@), log_path@),
{
    if attempts.len() == 0 {
        return format_error(ErrorCode::Overlay, "could not find an overlay executable");
    }
    let head = format_error(ErrorCode::Overlay, "could not launch overlay executable");
    let mut v = chars_of(head.as_str());
    push_str_chars(&mut v, "; attempts: ");
    let ghost a = strings_view(attempts@);
    let ghost base = v@;
    for i in 0..attempts.len()
        invariant
            a == strings_view(attempts@),
            a.len() > 0,
            v@ == base + crate::text::join_with(a.take(i as int), ", "@),
    {
        if i > 0 {
            push_str_chars(&mut v, ", ");
        }
        push_str_chars(&mut v, attempts[i].as_str());
        proof {
            let t = a.take(i + 1);
            assert(t.drop_last() =~= a.take(i as int));
            assert(t.last() == attempts@[i as int]@);
            if i == 0 {
                assert(a.take(0).len() == 0);
                assert(crate::text::join_with(t, ", "@) == t[0]);
            }
        }
    }
    assert(a.take(a.len() as int) =~= a);
    push_str_chars(&mut v, "; log=");
    push_str_chars(&mut v, log_path);
    string_of(v.as_slice())
}

/// Whether `i` is the last position at which `p` occurs in `s`.
pub open spec fn last_occurrence(s: Seq<char>, p: Seq<char>, i: int) -> bool {
    occurs_at(s, p, i) && forall|j: int| i < j ==> !#[trigger] occurs_at(s, p, j)
}

/// The last piece of `s` split at `p` (`split(p).last()`): what follows the
/// last occurrence of `p`, or all of `s` when `p` does not occur.  (The
/// separator used here cannot overlap itself, so the last match that
/// `split` finds is its last occurrence.)
pub open spec fn last_piece(s: Seq<char>, p: Seq<char>) -> Seq<char> {
    if exists|i: int| occurs_at(s, p, i) {
        s.skip((choose|i: int| last_occurrence(s, p, i)) + p.len())
    } else {
        s
    }
}

/// The energy level's text in a status reply: the first word after the
/// last `energy=`, if there is one.
pub open spec fn energy_text(reply: Seq<char>) -> Option<Seq<char>> {
    let w = first_word(last_piece(reply, "energy="@));
    if w.len() == 0 {
        None
    } else {
        Some(w)
    }
}

/// Executable form of [`energy_text`].
pub fn energy_token(reply: &str) -> (r: Option<String>)
    ensures
        opt_view(r) == energy_text(reply@),
{
    let v = chars_of(reply);
    let p = chars_of("energy=");
    let mut start: usize = 0;
    let mut found = false;
    if p.len() <= v.len() {
        let mut i: usize = v.len() - p.len();
        loop
            invariant_except_break
                !found,
            invariant
                v@ == reply@,
                p@ == "energy="@,
                p@.len() <= v@.len(),
                i + p@.len() <= v@.len(),
                forall|j: int| i < j ==> !#[trigger] occurs_at(v@, p@, j),
            ensures
                found ==> last_occurrence(v@, p@, start as int) && start + p@.len() <= v@.len(),
                !found ==> forall|j: int| !#[trigger] occurs_at(v@, p@, j),
            decreases i,
        {
            if chars_occur_at(&v, &p, i) {
                found = true;
                start = i;
                break;
            }
            if i == 0 {
                assert forall|j: int| !#[trigger] occurs_at(v@, p@, j) by {
                    if j < 0 {
                    }
                }
                break;
            }
            i = i - 1;
        }
    }
    let from: usize = if found { start + p.len() } else { 0 };
    proof {
        if found {
            let c = choose|i: int| last_occurrence(v@, p@, i);
            assert(last_occurrence(v@, p@, c));
            assert(c == start as int) by {
                if c < start as int {
                    assert(!occurs_at(v@, p@, start as int));
                } else if c > start as int {
                    assert(!occurs_at(v@, p@, c));
                }
            }
            assert(last_piece(reply@, "energy="@) == v@.skip(from as int));
        } else {
            assert(v@.skip(0) =~= v@);
            assert(last_piece(reply@, "energy="@) == v@.skip(from as int));
        }
    }
    let w = first_word_from(&v, from);
    if w.len() == 0 {
        None
    } else {
        Some(string_of(w.as_slice()))
    }
}

/// The arguments an overlay is started with: in the foreground, on
/// `socket`.
pub fn overlay_spawn_args(socket: &str) -> (r: Vec<String>)
    ensures
        strings_view(r@) == seq!["--fg"@, "--socket"@, socket@],
{
    let r = vec![String::from_str("--fg"), String::from_str("--socket"), String::from_str(socket)];
    assert(strings_view(r@) =~= seq!["--fg"@, "--socket"@, socket@]);
    r
}

/// The launch log's first line: the socket, the running executable (or
/// `<unavailable>`) and the candidates.
pub open spec fn spawn_start_text(socket: Seq<char>, current_exe: Option<Seq<char>>, candidates: Seq<
    Seq<char>,
>) -> Seq<char> {
    "spawn start: socket="@ + socket + " current_exe="@ + (match current_exe {
        Some(e) => e,
        None => "<unavailable>"@,
    }) + " candidates="@ + crate::text::join_with(candidates, ", "@)
}

/// Executable form of [`spawn_start_text`].
pub fn spawn_start_message(socket: &str, current_exe: Option<&str>, candidates: &Vec<String>) -> (r: String)
    ensures
        r@ == spawn_start_text(socket@, crate::dirs::opt_str_view(current_exe), strings_view(candidates@)),
{
    let mut v = chars_of("spawn start: socket=");
    push_str_chars(&mut v, socket);
    push_str_chars(&mut v, " current_exe=");
    match current_exe {
        Some(e) => push_str_chars(&mut v, e),
        None => push_str_chars(&mut v, "<unavailable>"),
    }
    push_str_chars(&mut v, " candidates=");
    let ghost a = strings_view(candidates@);
    let ghost base = v@;
    assert(crate::text::join_with(a.take(0), ", "@) =~= Seq::<char>::empty());
    for i in 0..candidates.len()
        invariant
            a == strings_view(candidates@),
            v@ == base + crate::text::join_with(a.take(i as int), ", "@),
    {
        if i > 0 {
            push_str_chars(&mut v, ", ");
        }
        push_str_chars(&mut v, candidates[i].as_str());
        proof {
            let t = a.take(i + 1);
            assert(t.drop_last() =~= a.take(i as int));
            assert(t.last() == candidates@[i as int]@);
            if i == 0 {
                assert(crate::text::join_with(t, ", "@) == t[0]);
            }
        }
    }
    assert(a.take(a.len() as int) =~= a);
    string_of(v.as_slice())
}

/// The launch log's line for a candidate that started.
pub fn spawn_success_message(candidate: &str, socket: &str) -> (r: String)
    ensures
        r@ == "spawn success: candidate="@ + candidate@ + " socket="@ + socket@,
{
    let mut s = String::from_str("spawn success: candidate=");
    s.append(candidate);
    s.append(" socket=");
    s.append(socket);
    s
}

/// The launch log's line for a candidate that failed to start.
pub fn spawn_failure_message(candidate: &str, error: &str) -> (r: String)
    ensures
        r@ == "spawn failed: candidate="@ + candidate@ + " error="@ + error@,
{
    let mut s = String::from_str("spawn failed: candidate=");
    s.append(candidate);
    s.append(" error=");
    s.append(error);
    s
}

/// How a failed attempt is recorded: `<candidate> (<error>)`.
pub fn spawn_attempt_text(candidate: &str, error: &str) -> (r: String)
    ensures
        r@ == candidate@ + " ("@ + error@ + ")"@,
{
    let mut s = String::from_str(candidate);
    s.append(" (");
    s.append(error);
    s.append(")");
    s
}

/// How many of the latest energy values the overlay's waveform shows.
pub const ENERGY_BARS: usize = 7;

/// The waveform's window before any value was reported: [`ENERGY_BARS`]
/// copies of `quiet`.
pub fn initial_energy_window<T: Copy>(quiet: T) -> (w: Vec<T>)
    ensures
        w@ == Seq::new(ENERGY_BARS as nat, |i: int| quiet),
{
    let mut w: Vec<T> = Vec::new();
    for i in 0..ENERGY_BARS
        invariant
            w@ == Seq::new(i as nat, |j: int| quiet),
    {
        w.push(quiet);
        assert(w@ =~= Seq::new((i + 1) as nat, |j: int| quiet));
    }
    w
}

/// Shifts a newly reported value into a window of fixed length: the oldest
/// value leaves and the new one comes last, so the window holds the latest
/// values, as many as before.
pub fn shift_in<T: Copy>(window: &mut Vec<T>, x: T)
    requires
        old(window)@.len() > 0,
    ensures
        final(window)@ == old(window)@.drop_first().push(x),
        final(window)@ == crate::window::last_n(old(window)@.push(x), old(window)@.len() as int),
{
    window.remove(0);
    window.push(x);
    proof {
        let s = old(window)@;
        assert(s.remove(0) =~= s.drop_first());
        assert(s.push(x).skip(1) =~= s.drop_first().push(x));
    }
}

} // verus!
