//! What the command-line front end computes: the arguments of the processes
//! it starts, the retry budget of an auto-started toggle, and the lines of
//! its reports.
use vstd::prelude::*;
use crate::hooks::strings_view;
use crate::text::{bool_text, chars_of, decimal, push_decimal, push_str_chars, string_of};
use crate::transcription::ModelStatus;

verus! {

/// How many times a toggle is retried after the daemon was started.
pub const AUTOSTART_ATTEMPTS: usize = 20;
/// Pause before each retry, in milliseconds.
pub const AUTOSTART_RETRY_MS: u64 = 100;

/// The arguments of a daemon started in the background by `daemon --fork`:
/// `daemon [--no-overlay] --socket <socket>`.
pub open spec fn forked_daemon_argv(no_overlay: bool, socket: Seq<char>) -> Seq<Seq<char>> {
    seq!["daemon"@] + (if no_overlay {
        seq!["--no-overlay"@]
    } else {
        Seq::empty()
    }) + seq!["--socket"@, socket]
}

/// Executable form of [`forked_daemon_argv`].
pub fn forked_daemon_args(no_overlay: bool, socket: &str) -> (r: Vec<String>)
    ensures
        strings_view(r@) == forked_daemon_argv(no_overlay, socket@),
{
    let mut r: Vec<String> = Vec::new();
    r.push(String::from_str("daemon"));
    if no_overlay {
        r.push(String::from_str("--no-overlay"));
    }
    r.push(String::from_str("--socket"));
    r.push(String::from_str(socket));
    assert(strings_view(r@) =~= forked_daemon_argv(no_overlay, socket@));
    r
}

/// The arguments that start the daemon in the background for an
/// auto-started toggle: `daemon --fork --socket <socket>`.
pub fn background_daemon_args(socket: &str) -> (r: Vec<String>)
    ensures
        strings_view(r@) == seq!["daemon"@, "--fork"@, "--socket"@, socket@],
{
    let r = vec![
        String::from_str("daemon"),
        String::from_str("--fork"),
        String::from_str("--socket"),
        String::from_str(socket),
    ];
    assert(strings_view(r@) =~= seq!["daemon"@, "--fork"@, "--socket"@, socket@]);
    r
}

/// Whether an auto-started toggle tries again after `attempts` failed
/// retries.
pub fn should_retry_toggle(attempts: usize) -> (r: bool)
    ensures
        r == (attempts < AUTOSTART_ATTEMPTS),
{
    attempts < AUTOSTART_ATTEMPTS
}

/// The error of a toggle that still failed after the daemon was started.
pub fn toggle_failure_message(socket: &str) -> (r: String)
    ensures
        r@ == "failed to toggle after starting daemon at "@ + socket@,
{
    let mut s = String::from_str("failed to toggle after starting daemon at ");
    s.append(socket);
    s
}

/// What `daemon-status` prints: `running=true` and the reply, or
/// `running=false` and the error.
pub open spec fn daemon_status_text(reply: Result<Seq<char>, Seq<char>>) -> Seq<Seq<char>> {
    match reply {
        Ok(r) => seq!["running=true"@, r],
        Err(e) => seq!["running=false"@, "error="@ + e],
    }
}

/// Executable form of [`daemon_status_text`].
pub fn daemon_status_lines(reply: Result<&str, &str>) -> (r: Vec<String>)
    ensures
        strings_view(r@) == daemon_status_text(match reply {
            Ok(s) => Ok(s@),
            Err(e) => Err(e@),
        }),
{
    let r = match reply {
        Ok(s) => vec![String::from_str("running=true"), String::from_str(s)],
        Err(e) => {
            let mut line = String::from_str("error=");
            line.append(e);
            vec![String::from_str("running=false"), line]
        },
    };
    assert(strings_view(r@) =~= daemon_status_text(match reply {
        Ok(s) => Ok(s@),
        Err(e) => Err(e@),
    }));
    r
}

/// `true` or `false`.
pub fn bool_string(b: bool) -> (r: &'static str)
    ensures
        r@ == bool_text(b),
{
    proof {
        reveal_strlit("true");
        reveal_strlit("false");
    }
    if b {
        "true"
    } else {
        "false"
    }
}

/// `key` followed by `value`.
pub fn keyed(key: &str, value: &str) -> (r: String)
    ensures
        r@ == key@ + value@,
{
    let mut s = String::from_str(key);
    s.append(value);
    s
}

/// `<n>` in decimal followed by `sep` and `value`, after `head`.
fn numbered(head: &str, n: u128, sep: &str, value: &str) -> (r: String)
    ensures
        r@ == head@ + decimal(n as nat) + sep@ + value@,
{
    let mut v = chars_of(head);
    push_decimal(&mut v, n);
    push_str_chars(&mut v, sep);
    push_str_chars(&mut v, value);
    string_of(v.as_slice())
}

/// What `audio devices` prints: each device numbered from one, or a note
/// that there are none.
pub open spec fn device_list_text(names: Seq<Seq<char>>) -> Seq<Seq<char>> {
    if names.len() == 0 {
        seq!["no input devices found"@]
    } else {
        Seq::new(names.len(), |i: int| decimal((i + 1) as nat) + ": "@ + names[i])
    }
}

/// Executable form of [`device_list_text`].
pub fn device_list_lines(names: &Vec<String>) -> (r: Vec<String>)
    ensures
        strings_view(r@) == device_list_text(strings_view(names@)),
{
    let mut r: Vec<String> = Vec::new();
    if names.len() == 0 {
        r.push(String::from_str("no input devices found"));
        assert(strings_view(r@) =~= device_list_text(strings_view(names@)));
        return r;
    }
    for i in 0..names.len()
        invariant
            r@.len() == i,
            forall|k: int| 0 <= k < i ==> (#[trigger] r@[k])@ == decimal((k + 1) as nat) + ": "@ + names@[k]@,
    {
        r.push(numbered("", (i + 1) as u128, ": ", names[i].as_str()));
        proof {
            reveal_strlit("");
            assert(""@ + decimal((i + 1) as nat) =~= decimal((i + 1) as nat));
        }
    }
    assert(strings_view(r@) =~= device_list_text(strings_view(names@)));
    r
}

/// What `model status` prints.
pub open spec fn model_status_text(model_path: Seq<char>, status: ModelStatus) -> Seq<Seq<char>> {
    seq!["model_path="@ + model_path, "ready="@ + bool_text(status.ready)] + if status.fallback_ready {
        seq!["fallback_ready=true (files found in parent dir)"@]
    } else {
        Seq::empty()
    }
}

/// Executable form of [`model_status_text`].
pub fn model_status_lines(model_path: &str, status: ModelStatus) -> (r: Vec<String>)
    ensures
        strings_view(r@) == model_status_text(model_path@, status),
{
    let mut r: Vec<String> = Vec::new();
    r.push(keyed("model_path=", model_path));
    r.push(keyed("ready=", bool_string(status.ready)));
    if status.fallback_ready {
        r.push(String::from_str("fallback_ready=true (files found in parent dir)"));
    }
    assert(strings_view(r@) =~= model_status_text(model_path@, status));
    r
}

/// What the diagnostics report on.
#[derive(Debug)]
pub struct DoctorFacts {
    pub config_path: String,
    pub socket_path: String,
    pub model_path: String,
    pub model: ModelStatus,
    /// The daemon's status reply, when it answered.
    pub daemon_status: Option<String>,
    pub output_command: String,
    pub ydotool_in_path: bool,
    pub input_device: Option<String>,
    pub devices: Vec<String>,
}

/// What `doctor` prints, line by line.
pub open spec fn doctor_text(f: DoctorFacts) -> Seq<Seq<char>> {
    let devices = strings_view(f.devices@);
    seq![
        "config_path="@ + f.config_path@,
        "socket_path="@ + f.socket_path@,
        "model_path="@ + f.model_path@,
        "model_ready="@ + bool_text(f.model.ready),
        "model_fallback_ready="@ + bool_text(f.model.fallback_ready),
        "daemon_running="@ + bool_text(f.daemon_status is Some),
    ] + (match f.daemon_status {
        Some(s) => seq!["daemon_status="@ + s@],
        None => Seq::empty(),
    }) + seq![
        "output_command="@ + f.output_command@,
        "ydotool_in_path="@ + bool_text(f.ydotool_in_path),
        "audio_input_device_config="@ + crate::tts::or_empty(f.input_device),
        "audio_input_devices="@ + decimal(devices.len()),
    ] + Seq::new(
        devices.len(),
        |i: int| "audio_device_"@ + decimal((i + 1) as nat) + "="@ + devices[i],
    )
}

/// Executable form of [`doctor_text`].
pub fn doctor_report(f: &DoctorFacts) -> (r: Vec<String>)
    ensures
        strings_view(r@) == doctor_text(*f),
{
    let mut r: Vec<String> = Vec::new();
    r.push(keyed("config_path=", f.config_path.as_str()));
    r.push(keyed("socket_path=", f.socket_path.as_str()));
    r.push(keyed("model_path=", f.model_path.as_str()));
    r.push(keyed("model_ready=", bool_string(f.model.ready)));
    r.push(keyed("model_fallback_ready=", bool_string(f.model.fallback_ready)));
    r.push(keyed("daemon_running=", bool_string(f.daemon_status.is_some())));
    if let Some(s) = &f.daemon_status {
        r.push(keyed("daemon_status=", s.as_str()));
    }
    r.push(keyed("output_command=", f.output_command.as_str()));
    r.push(keyed("ydotool_in_path=", bool_string(f.ydotool_in_path)));
    let device = match &f.input_device {
        Some(d) => d.as_str(),
        None => "",
    };
    proof {
        reveal_strlit("");
    }
    r.push(keyed("audio_input_device_config=", device));
    r.push(numbered("audio_input_devices=", f.devices.len() as u128, "", ""));
    let ghost head = strings_view(r@);
    let ghost devices = strings_view(f.devices@);
    assert(head.len() == 10 + (if f.daemon_status is Some { 1int } else { 0int }));
    for i in 0..f.devices.len()
        invariant
            head.len() <= r@.len(),
            r@.len() == head.len() + i,
            devices == strings_view(f.devices@),
            forall|k: int| 0 <= k < head.len() ==> (#[trigger] r@[k])@ == head[k],
            forall|k: int|
                head.len() <= k < r@.len() ==> (#[trigger] r@[k])@ == "audio_device_"@ + decimal(
                    (k - head.len() + 1) as nat,
                ) + "="@ + devices[k - head.len()],
    {
        r.push(numbered("audio_device_", (i + 1) as u128, "=", f.devices[i].as_str()));
    }
    assert(strings_view(r@) =~= doctor_text(*f));
    r
}

} // verus!
