//! Verified core of the voice-cmd voice-to-text daemon and its helpers.
pub mod text;
pub mod vad;
pub mod errors;
pub mod paths;
pub mod ipc;
pub mod daemon;
pub mod hooks;
pub mod dirs;
pub mod logging;
pub mod config;
pub mod tts;
pub mod overlay;
pub mod audio;
pub mod transcription;
pub mod cli;
pub mod tts_assets;
pub mod json;
pub mod window;
