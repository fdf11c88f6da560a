//! Error codes shared by the binaries, and their textual form.
use vstd::prelude::*;

verus! {

/// Category of a user-facing error.
#[derive(Clone, Copy, Debug, PartialEq, Eq, Structural)]
pub enum ErrorCode {
    Config,
    Ipc,
    Overlay,
    Audio,
    Model,
    Tts,
    Internal,
}

/// The text of an error code.
pub open spec fn error_code_text(code: ErrorCode) -> Seq<char> {
    match code {
        ErrorCode::Config => "CONFIG"@,
        ErrorCode::Ipc => "IPC"@,
        ErrorCode::Overlay => "OVERLAY"@,
        ErrorCode::Audio => "AUDIO"@,
        ErrorCode::Model => "MODEL"@,
        ErrorCode::Tts => "TTS"@,
        ErrorCode::Internal => "INTERNAL"@,
    }
}

impl ErrorCode {
    /// The upper-case name of the code.
    pub fn as_str(self) -> (r: &'static str)
        ensures
            r@ == error_code_text(self),
    {
        match self {
            ErrorCode::Config => "CONFIG",
            ErrorCode::Ipc => "IPC",
            ErrorCode::Overlay => "OVERLAY",
            ErrorCode::Audio => "AUDIO",
            ErrorCode::Model => "MODEL",
            ErrorCode::Tts => "TTS",
            ErrorCode::Internal => "INTERNAL",
        }
    }
}

/// `CODE:message`.
pub fn format_error(code: ErrorCode, message: &str) -> (r: String)
    ensures
        r@ == error_code_text(code) + ":"@ + message@,
{
    let mut s = String::from_str(code.as_str());
    s.append(":");
    s.append(message);
    s
}

} // verus!
