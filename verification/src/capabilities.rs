//! The native capabilities offered to the web UI: dialog titles and the
//! notification permission check.

use vstd::prelude::*;
use vstd::string::*;
use crate::paths::opt_text;

verus! {

/// The prompt when one is given, else the default title.
pub open spec fn title_or(prompt: Option<Seq<char>>, default: Seq<char>) -> Seq<char> {
    match prompt {
        Some(p) => p,
        None => default,
    }
}

/// The title of the folder picker: the caller's prompt, or
/// `Select a directory`.
pub fn directory_picker_title(prompt: Option<String>) -> (t: String)
    ensures
        t@ == title_or(opt_text(prompt), "Select a directory"@),
{
    match prompt {
        Some(p) => p,
        None => String::from_str("Select a directory"),
    }
}

/// The title of the file picker: the caller's prompt, or `Select a file`.
pub fn file_picker_title(prompt: Option<String>) -> (t: String)
    ensures
        t@ == title_or(opt_text(prompt), "Select a file"@),
{
    match prompt {
        Some(p) => p,
        None => String::from_str("Select a file"),
    }
}

/// The platform's answer about notification permission.
#[derive(Debug, Clone, Copy, PartialEq, Eq, Structural)]
pub enum PermissionState {
    Granted,
    Denied,
    Prompt,
    PromptWithRationale,
}

/// Notifications are allowed only once permission is granted.
pub fn is_notification_allowed(state: PermissionState) -> (b: bool)
    ensures
        b == (state == PermissionState::Granted),
{
    match state {
        PermissionState::Granted => true,
        _ => false,
    }
}

} // verus!
