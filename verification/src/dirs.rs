//! The per-user directories of the application (XDG base directories).
use vstd::prelude::*;

verus! {

#[verifier::external_type_specification]
#[verifier::external_body]
pub struct ExProjectDirs(directories::ProjectDirs);

/// Qualifier of the application's directories (a reverse domain name).
pub const DIRS_QUALIFIER: &'static str = "io";
/// Organization of the application's directories.
pub const DIRS_ORGANIZATION: &'static str = "voice-cmd";
/// Name of the application's directories.
pub const DIRS_APPLICATION: &'static str = "voice-cmd";

/// `ProjectDirs::from(qualifier, organization, application)`: the
/// directories of an application, or nothing when no home directory can be
/// found.  The result depends on the environment (the home directory and
/// the `XDG_*` variables) and on the platform, so nothing is promised of it.
#[verifier::external_body]
fn project_dirs(qualifier: &str, organization: &str, application: &str) -> (r: Option<
    directories::ProjectDirs,
>) {
    directories::ProjectDirs::from(qualifier, organization, application)
}

/// The directories of this application: those `ProjectDirs::from` gives
/// for [`DIRS_QUALIFIER`], [`DIRS_ORGANIZATION`] and [`DIRS_APPLICATION`].
fn app_dirs() -> (r: Option<directories::ProjectDirs>) {
    project_dirs(DIRS_QUALIFIER, DIRS_ORGANIZATION, DIRS_APPLICATION)
}

/// `ProjectDirs::state_dir`, as text (lossily converted when the path is
/// not valid Unicode).
#[verifier::external_body]
fn state_dir_of(p: &directories::ProjectDirs) -> (r: Option<String>) {
    p.state_dir().map(|d| d.to_string_lossy().into_owned())
}

/// `ProjectDirs::data_dir`, as text (lossily converted when the path is not
/// valid Unicode).
#[verifier::external_body]
fn data_dir_of(p: &directories::ProjectDirs) -> (r: String) {
    p.data_dir().to_string_lossy().into_owned()
}

/// `ProjectDirs::config_dir`, as text (lossily converted when the path is
/// not valid Unicode).
#[verifier::external_body]
fn config_dir_of(p: &directories::ProjectDirs) -> (r: String) {
    p.config_dir().to_string_lossy().into_owned()
}

/// The state directory (`$XDG_STATE_HOME/voice-cmd`), if one is known.
pub fn state_dir() -> (r: Option<String>) {
    match app_dirs() {
        Some(p) => state_dir_of(&p),
        None => None,
    }
}

/// The data directory (`$XDG_DATA_HOME/voice-cmd`), if one is known.
pub fn data_dir() -> (r: Option<String>) {
    match app_dirs() {
        Some(p) => Some(data_dir_of(&p)),
        None => None,
    }
}

/// The configuration directory (`$XDG_CONFIG_HOME/voice-cmd`), if one is
/// known.
pub fn config_dir() -> (r: Option<String>) {
    match app_dirs() {
        Some(p) => Some(config_dir_of(&p)),
        None => None,
    }
}

/// The view of an optional string.
pub open spec fn opt_view(o: Option<String>) -> Option<Seq<char>> {
    match o {
        Some(s) => Some(s@),
        None => None,
    }
}

/// The view of an optional string slice.
pub open spec fn opt_str_view(o: Option<&str>) -> Option<Seq<char>> {
    match o {
        Some(s) => Some(s@),
        None => None,
    }
}

} // verus!
