use vstd::prelude::*;
use crate::text::{is_blank, trim, trimmed};

verus! {

/// Which end of the taskbar (or of a region of it) the widget attaches to.
#[derive(Debug, Clone, Copy, PartialEq, Eq, Structural)]
pub enum TaskbarSide {
    Left,
    Right,
}

/// The configured Codex home directory as it is kept: trimmed, and dropped
/// when blank.
pub open spec fn normalized_home(home: Option<String>) -> Option<Seq<char>> {
    match home {
        Some(h) => if trim(h@).len() == 0 {
            None
        } else {
            Some(trim(h@))
        },
        None => None,
    }
}

/// Normalises the configured Codex home directory (see `normalized_home`).
pub fn normalize_codex_home(home: Option<String>) -> (r: Option<String>)
    ensures
        match normalized_home(home) {
            Some(h) => r matches Some(s) && s@ == h,
            None => r is None,
        },
{
    match home {
        Some(h) => if is_blank(h.as_str()) {
            None
        } else {
            Some(trimmed(h.as_str()))
        },
        None => None,
    }
}

/// Where the Codex login is looked for.
#[derive(Debug, Clone, Copy, PartialEq, Eq, Structural)]
pub enum CodexHome {
    /// The directory configured in the settings.
    Configured,
    /// The `CODEX_HOME` environment variable.
    Environment,
    /// `.codex` in the user's home directory.
    UserHome,
}

/// The login is read from the configured Codex home, else from
/// `CODEX_HOME` when it is set and not empty, else from `~/.codex`.
pub fn codex_home_source(configured: bool, environment_set: bool) -> (r: CodexHome)
    ensures
        configured ==> r == CodexHome::Configured,
        !configured && environment_set ==> r == CodexHome::Environment,
        !configured && !environment_set ==> r == CodexHome::UserHome,
{
    if configured {
        CodexHome::Configured
    } else if environment_set {
        CodexHome::Environment
    } else {
        CodexHome::UserHome
    }
}

} // verus!
