//! Where the daemon and the overlay write their logs, and how a log line
//! looks.
use vstd::prelude::*;
use crate::dirs::{opt_str_view, opt_view, state_dir};
use crate::paths::{join, path_join};
use crate::text::{chars_of, decimal, push_decimal, push_str_chars, string_of};

verus! {

/// A log file: in the state directory when there is one, else the fallback.
pub open spec fn log_path_for(state_dir: Option<Seq<char>>, file: Seq<char>, fallback: Seq<char>) -> Seq<
    char,
> {
    match state_dir {
        Some(d) => path_join(d, file),
        None => fallback,
    }
}

/// Executable form of [`log_path_for`].
pub fn log_path_in(state_dir: Option<&str>, file: &str, fallback: &str) -> (r: String)
    ensures
        r@ == log_path_for(opt_str_view(state_dir), file@, fallback@),
{
    match state_dir {
        Some(d) => join(d, file),
        None => String::from_str(fallback),
    }
}

fn log_path(file: &str, fallback: &str) -> (r: String)
    ensures
        exists|d: Option<Seq<char>>| r@ == log_path_for(d, file@, fallback@),
{
    let sd = state_dir();
    let r = match &sd {
        Some(d) => log_path_in(Some(d.as_str()), file, fallback),
        None => log_path_in(None, file, fallback),
    };
    assert(r@ == log_path_for(opt_view(sd), file@, fallback@));
    r
}

/// The log of a forked daemon: `daemon.log` in the state directory.
pub fn daemon_log_path() -> (r: String)
    ensures
        exists|d: Option<Seq<char>>| r@ == log_path_for(
            d,
            "daemon.log"@,
            "/tmp/voice-cmd-daemon.log"@,
        ),
{
    log_path("daemon.log", "/tmp/voice-cmd-daemon.log")
}

/// The log of a daemonized overlay: `overlay.log` in the state directory.
pub fn overlay_log_path() -> (r: String)
    ensures
        exists|d: Option<Seq<char>>| r@ == log_path_for(
            d,
            "overlay.log"@,
            "/tmp/voice-cmd-overlay.log"@,
        ),
{
    log_path("overlay.log", "/tmp/voice-cmd-overlay.log")
}

/// The log of overlay launch attempts: `overlay-launch.log` in the state
/// directory.
pub fn overlay_launch_log_path() -> (r: String)
    ensures
        exists|d: Option<Seq<char>>| r@ == log_path_for(
            d,
            "overlay-launch.log"@,
            "/tmp/voice-cmd-overlay-launch.log"@,
        ),
{
    log_path("overlay-launch.log", "/tmp/voice-cmd-overlay-launch.log")
}

/// A log line: `[<seconds since the epoch>] <message>`.
pub open spec fn log_line_text(unix_secs: u64, message: Seq<char>) -> Seq<char> {
    "["@ + decimal(unix_secs as nat) + "] "@ + message
}

/// Executable form of [`log_line_text`].
pub fn log_line(unix_secs: u64, message: &str) -> (r: String)
    ensures
        r@ == log_line_text(unix_secs, message@),
{
    let mut v = chars_of("[");
    push_decimal(&mut v, unix_secs as u128);
    push_str_chars(&mut v, "] ");
    push_str_chars(&mut v, message);
    string_of(v.as_slice())
}

} // verus!
