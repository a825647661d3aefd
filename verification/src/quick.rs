//! Quick-action decisions: what triggered an action, how it is
//! described, and which notifications its settings allow.
//!
//! Showing a notification, playing a sound, and emitting the completion
//! event are the caller's business; this module decides what to show.

use vstd::prelude::*;
use vstd::string::StringExecFns;
use crate::config::QuickActionsSettings;

verus! {

/// What triggered a quick action.
#[derive(Debug, Clone, Copy, PartialEq, Eq, Structural)]
pub enum QuickActionType {
    Timer,
    Tray,
    Hotkey,
}

impl QuickActionType {
    /// The snapshot description a trigger writes.
    pub fn generate_describe(self) -> (r: String)
        ensures
            self is Timer ==> r@ == "Auto Backup (Timer)"@,
            self is Tray ==> r@ == "Quick Backup (Tray)"@,
            self is Hotkey ==> r@ == "Quick Backup (Hotkey)"@,
    {
        match self {
            QuickActionType::Timer => String::from_str("Auto Backup (Timer)"),
            QuickActionType::Tray => String::from_str("Quick Backup (Tray)"),
            QuickActionType::Hotkey => String::from_str("Quick Backup (Hotkey)"),
        }
    }
}

/// What a quick action did.
#[derive(Debug, Clone, Copy, PartialEq, Eq, Structural)]
pub enum QuickActionOperation {
    Backup,
    Apply,
}

/// How a quick action ended.
#[derive(Debug, Clone, Copy, PartialEq, Eq, Structural)]
pub enum QuickActionStatus {
    Success,
    Failure,
}

/// Which sound a quick action's outcome plays.
#[derive(Debug, Clone, Copy, PartialEq, Eq, Structural)]
pub enum QuickActionSoundEffect {
    Success,
    Failure,
}

/// The completion event of one quick action.
#[derive(Debug, Clone)]
pub struct QuickActionCompleted {
    pub operation: QuickActionOperation,
    pub status: QuickActionStatus,
    pub trigger: QuickActionType,
    pub game_name: Option<String>,
}

/// The notification to show for a quick action, if the settings allow
/// notifications at all.
pub fn maybe_show_notification(settings: &QuickActionsSettings, title: String, body: String) -> (r:
    Option<(String, String)>)
    ensures
        settings.enable_notification ==> (r matches Some(p) && p.0@ == title@ && p.1@ == body@),
        !settings.enable_notification ==> r is None,
{
    if settings.enable_notification {
        Some((title, body))
    } else {
        None
    }
}

/// The success notification to show, if the settings allow notifications
/// and this outcome should be announced.
pub fn maybe_show_success_notification(
    settings: &QuickActionsSettings,
    should_notify: bool,
    title: String,
    body: String,
) -> (r: Option<(String, String)>)
    ensures
        (settings.enable_notification && should_notify) ==> (r matches Some(p) && p.0@ == title@
            && p.1@ == body@),
        !(settings.enable_notification && should_notify) ==> r is None,
{
    if settings.enable_notification && should_notify {
        Some((title, body))
    } else {
        None
    }
}

} // verus!
