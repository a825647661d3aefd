//! Notification payloads handed across the host boundary.

use vstd::prelude::*;

verus! {

/// The severity of a notification.
#[allow(non_camel_case_types)]
#[derive(Debug, Clone, Copy, PartialEq, Eq, Structural)]
pub enum NotificationLevel {
    info,
    warning,
    error,
}

/// One notification for the front end.
#[derive(Debug, Clone)]
pub struct IpcNotification {
    pub level: NotificationLevel,
    pub title: String,
    pub msg: String,
}

} // verus!
