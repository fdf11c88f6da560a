//! The line protocol spoken over the daemon's control socket.
use vstd::prelude::*;
use crate::text::{
    ascii_lower, chars_eq_ignore_ascii_case, chars_from, chars_of, chars_start_with, decimal,
    digits_value, eq_ignore_ascii_case, first_word, first_word_from, is_ws, leading_word,
    lemma_decimal_digits, lemma_parse_decimal, parse_usize, parse_usize_chars, push_decimal,
    starts_with, string_of, trim, trim_chars, trim_start, trim_str,
};
use crate::paths::{join, path_join};

verus! {

/// A request to the daemon.
#[derive(Debug, Clone, PartialEq, Eq)]
pub enum Request {
    Toggle,
    Start,
    Stop,
    Status,
    Shutdown,
    Reload,
    History { limit: usize },
    SendText { text: String },
}

/// Abstract form of a [`Request`].
pub enum RequestView {
    Toggle,
    Start,
    Stop,
    Status,
    Shutdown,
    Reload,
    History { limit: usize },
    SendText { text: Seq<char> },
}

impl View for Request {
    type V = RequestView;

    open spec fn view(&self) -> RequestView {
        match self {
            Request::Toggle => RequestView::Toggle,
            Request::Start => RequestView::Start,
            Request::Stop => RequestView::Stop,
            Request::Status => RequestView::Status,
            Request::Shutdown => RequestView::Shutdown,
            Request::Reload => RequestView::Reload,
            Request::History { limit } => RequestView::History { limit: *limit },
            Request::SendText { text } => RequestView::SendText { text: text@ },
        }
    }
}

/// Number of history entries asked for when a `HISTORY` line names none.
pub const DEFAULT_HISTORY_LIMIT: usize = 20;

/// The request a protocol line stands for.  The line is trimmed; the bare
/// commands are matched ignoring ASCII case; `HISTORY` takes an optional
/// count (at least 1, by default 20); `TEXT ` is followed by the text.
pub open spec fn parse_line(line: Seq<char>) -> Option<RequestView> {
    let t = trim(line);
    if eq_ignore_ascii_case(t, "TOGGLE"@) {
        Some(RequestView::Toggle)
    } else if eq_ignore_ascii_case(t, "START"@) {
        Some(RequestView::Start)
    } else if eq_ignore_ascii_case(t, "STOP"@) {
        Some(RequestView::Stop)
    } else if eq_ignore_ascii_case(t, "STATUS"@) {
        Some(RequestView::Status)
    } else if eq_ignore_ascii_case(t, "SHUTDOWN"@) {
        Some(RequestView::Shutdown)
    } else if eq_ignore_ascii_case(t, "RELOAD"@) {
        Some(RequestView::Reload)
    } else if starts_with(t, "HISTORY"@) {
        let n = match parse_usize(first_word(t.skip("HISTORY"@.len() as int))) {
            Some(n) => n,
            None => DEFAULT_HISTORY_LIMIT,
        };
        Some(RequestView::History { limit: if n < 1 { 1 } else { n } })
    } else if starts_with(t, "TEXT "@) {
        Some(RequestView::SendText { text: t.skip("TEXT "@.len() as int) })
    } else {
        None
    }
}

/// The protocol line that encodes a request.
pub open spec fn command_line(r: RequestView) -> Seq<char> {
    match r {
        RequestView::Toggle => "TOGGLE"@,
        RequestView::Start => "START"@,
        RequestView::Stop => "STOP"@,
        RequestView::Status => "STATUS"@,
        RequestView::Shutdown => "SHUTDOWN"@,
        RequestView::Reload => "RELOAD"@,
        RequestView::History { limit } => "HISTORY "@ + decimal(limit as nat),
        RequestView::SendText { text } => "TEXT "@ + text,
    }
}

impl Request {
    /// Parses a protocol line.
    pub fn parse_legacy(line: &str) -> (r: Option<Request>)
        ensures
            match r {
                Some(q) => parse_line(line@) == Some(q@),
                None => parse_line(line@) is None,
            },
    {
        let v = chars_of(line);
        let t = trim_chars(&v);
        if chars_eq_ignore_ascii_case(&t, "TOGGLE") {
            return Some(Request::Toggle);
        }
        if chars_eq_ignore_ascii_case(&t, "START") {
            return Some(Request::Start);
        }
        if chars_eq_ignore_ascii_case(&t, "STOP") {
            return Some(Request::Stop);
        }
        if chars_eq_ignore_ascii_case(&t, "STATUS") {
            return Some(Request::Status);
        }
        if chars_eq_ignore_ascii_case(&t, "SHUTDOWN") {
            return Some(Request::Shutdown);
        }
        if chars_eq_ignore_ascii_case(&t, "RELOAD") {
            return Some(Request::Reload);
        }
        let history = "HISTORY";
        if chars_start_with(&t, history) {
            let hv = chars_of(history);
            let w = first_word_from(&t, hv.len());
            let n = match parse_usize_chars(&w) {
                Some(n) => n,
                None => DEFAULT_HISTORY_LIMIT,
            };
            let limit = if n < 1 {
                1
            } else {
                n
            };
            return Some(Request::History { limit });
        }
        let text_prefix = "TEXT ";
        if chars_start_with(&t, text_prefix) {
            let pv = chars_of(text_prefix);
            let rest = chars_from(&t, pv.len());
            return Some(Request::SendText { text: string_of(rest.as_slice()) });
        }
        None
    }

    /// The protocol line for this request.
    pub fn to_legacy_command(&self) -> (r: String)
        ensures
            r@ == command_line(self@),
    {
        match self {
            Request::Toggle => String::from_str("TOGGLE"),
            Request::Start => String::from_str("START"),
            Request::Stop => String::from_str("STOP"),
            Request::Status => String::from_str("STATUS"),
            Request::Shutdown => String::from_str("SHUTDOWN"),
            Request::Reload => String::from_str("RELOAD"),
            Request::History { limit } => {
                let mut v = chars_of("HISTORY ");
                push_decimal(&mut v, *limit as u128);
                string_of(v.as_slice())
            },
            Request::SendText { text } => {
                let mut s = String::from_str("TEXT ");
                s.append(text.as_str());
                s
            },
        }
    }
}

/// Whether a request survives encoding and parsing unchanged: a history
/// count of at least 1, and a text that is non-empty and does not end with
/// whitespace (the line is trimmed when parsed).
pub open spec fn round_trips(r: RequestView) -> bool {
    match r {
        RequestView::History { limit } => limit >= 1,
        RequestView::SendText { text } => text.len() > 0 && !is_ws(text.last()),
        _ => true,
    }
}

proof fn lemma_trim_unchanged(s: Seq<char>)
    requires
        s.len() > 0,
        !is_ws(s[0]),
        !is_ws(s.last()),
    ensures
        trim(s) == s,
{
}

/// Parsing the encoding of a request gives the request back, for every
/// request that [`round_trips`]; a history count of 0 comes back as 1.
pub proof fn lemma_parse_command_line(r: RequestView)
    ensures
        round_trips(r) ==> parse_line(command_line(r)) == Some(r),
        r matches RequestView::History { limit } && limit == 0 ==> parse_line(command_line(r))
            == Some(RequestView::History { limit: 1 }),
{
    reveal_strlit("TOGGLE");
    reveal_strlit("START");
    reveal_strlit("STOP");
    reveal_strlit("STATUS");
    reveal_strlit("SHUTDOWN");
    reveal_strlit("RELOAD");
    reveal_strlit("HISTORY");
    reveal_strlit("HISTORY ");
    reveal_strlit("TEXT ");
    let line = command_line(r);
    match r {
        RequestView::Toggle => {
            assert(trim(line) == line);
        },
        RequestView::Start => {
            assert(trim(line) == line);
            assert(!eq_ignore_ascii_case(line, "TOGGLE"@));
        },
        RequestView::Stop => {
            assert(trim(line) == line);
            assert(!eq_ignore_ascii_case(line, "TOGGLE"@));
            assert(!eq_ignore_ascii_case(line, "START"@));
        },
        RequestView::Status => {
            assert(trim(line) == line);
            assert(!eq_ignore_ascii_case(line, "TOGGLE"@)) by {
                assert(ascii_lower(line[0]) != ascii_lower("TOGGLE"@[0]));
            }
            assert(!eq_ignore_ascii_case(line, "START"@));
            assert(!eq_ignore_ascii_case(line, "STOP"@));
        },
        RequestView::Shutdown => {
            assert(trim(line) == line);
            assert(!eq_ignore_ascii_case(line, "TOGGLE"@));
            assert(!eq_ignore_ascii_case(line, "START"@));
            assert(!eq_ignore_ascii_case(line, "STOP"@));
            assert(!eq_ignore_ascii_case(line, "STATUS"@));
        },
        RequestView::Reload => {
            assert(trim(line) == line);
            assert(!eq_ignore_ascii_case(line, "TOGGLE"@)) by {
                assert(ascii_lower(line[0]) != ascii_lower("TOGGLE"@[0]));
            }
            assert(!eq_ignore_ascii_case(line, "START"@));
            assert(!eq_ignore_ascii_case(line, "STOP"@));
            assert(!eq_ignore_ascii_case(line, "STATUS"@)) by {
                assert(ascii_lower(line[0]) != ascii_lower("STATUS"@[0]));
            }
            assert(!eq_ignore_ascii_case(line, "SHUTDOWN"@));
        },
        RequestView::History { limit } => {
            let d = decimal(limit as nat);
            lemma_decimal_digits(limit as nat);
            lemma_parse_decimal(limit);
            assert(line == "HISTORY "@ + d);
            assert(line[0] == 'H');
            assert(line.last() == d.last());
            lemma_trim_unchanged(line);
            assert(line.len() >= 9);
            assert(starts_with(line, "HISTORY"@)) by {
                assert(line.take(7) =~= "HISTORY"@);
            }
            let rest = line.skip(7);
            assert(rest =~= seq![' '] + d);
            assert(trim_start(rest) == d) by {
                assert(rest.drop_first() =~= d);
                assert(is_ws(rest[0]));
                assert(!is_ws(d[0]));
                assert(trim_start(d) == d);
            }
            lemma_leading_word_all(d);
        },
        RequestView::SendText { text } => {
            if round_trips(r) {
                assert(line == "TEXT "@ + text);
                assert(line[0] == 'T');
                assert(line.last() == text.last());
                lemma_trim_unchanged(line);
                assert(!eq_ignore_ascii_case(line, "TOGGLE"@)) by {
                    assert(ascii_lower(line[1]) != ascii_lower("TOGGLE"@[1]));
                }
                assert(!eq_ignore_ascii_case(line, "STATUS"@)) by {
                    assert(ascii_lower(line[0]) != ascii_lower("STATUS"@[0]));
                }
                assert(!eq_ignore_ascii_case(line, "RELOAD"@)) by {
                    assert(ascii_lower(line[0]) != ascii_lower("RELOAD"@[0]));
                }
                assert(!eq_ignore_ascii_case(line, "SHUTDOWN"@)) by {
                    assert(ascii_lower(line[0]) != ascii_lower("SHUTDOWN"@[0]));
                }
                assert(!eq_ignore_ascii_case(line, "START"@)) by {
                    assert(ascii_lower(line[0]) != ascii_lower("START"@[0]));
                }
                assert(!eq_ignore_ascii_case(line, "STOP"@)) by {
                    assert(ascii_lower(line[0]) != ascii_lower("STOP"@[0]));
                }
                assert(!starts_with(line, "HISTORY"@)) by {
                    if line.len() >= 7 {
                        assert(line.take(7)[0] == line[0]);
                        assert(line[0] != "HISTORY"@[0]);
                    }
                }
                assert(starts_with(line, "TEXT "@)) by {
                    assert(line.take(5) =~= "TEXT "@);
                }
                assert(line.skip(5) =~= text);
            }
        },
    }
}

/// A word made only of non-whitespace characters is its own leading word.
proof fn lemma_leading_word_all(d: Seq<char>)
    requires
        forall|i: int| 0 <= i < d.len() ==> !is_ws(#[trigger] d[i]),
    ensures
        leading_word(d) == d,
    decreases d.len(),
{
    if d.len() > 0 {
        lemma_leading_word_all(d.drop_first());
        assert(seq![d[0]] + d.drop_first() =~= d);
    }
}

/// File name of the control socket.
pub const SOCKET_FILE_NAME: &'static str = "voice-cmd.sock";

/// Socket used when `XDG_RUNTIME_DIR` is not set.
pub const FALLBACK_SOCKET_PATH: &'static str = "/tmp/voice-cmd.sock";

/// The default socket path, given the value of `XDG_RUNTIME_DIR`.
pub open spec fn socket_path_for(runtime_dir: Option<Seq<char>>) -> Seq<char> {
    match runtime_dir {
        Some(dir) => path_join(dir, SOCKET_FILE_NAME@),
        None => FALLBACK_SOCKET_PATH@,
    }
}

/// Executable form of [`socket_path_for`].
pub fn default_socket_path_in(runtime_dir: Option<&str>) -> (r: String)
    ensures
        r@ == socket_path_for(
            match runtime_dir {
                Some(d) => Some(d@),
                None => None,
            },
        ),
{
    match runtime_dir {
        Some(dir) => join(dir, SOCKET_FILE_NAME),
        None => String::from_str(FALLBACK_SOCKET_PATH),
    }
}

/// The reply of the daemon as shown to the user: the raw reply, trimmed.
pub fn response_text(raw: &str) -> (r: String)
    ensures
        r@ == trim(raw@),
{
    trim_str(raw)
}

} // verus!
