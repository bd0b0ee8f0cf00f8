//! What the notification channel is told.
use vstd::prelude::*;
use crate::config::{Ntfy, Settings};
use crate::model::{UpdateStatus, Workload};

verus! {

/// Why no notification endpoint is configured.
#[derive(PartialEq, Eq, Structural, Clone, Copy, Debug)]
pub enum NotifyConfigError {
    NoNotifications,
    NoNtfy,
}

/// The notification endpoint of the settings.
pub fn load_settings(settings: &Settings) -> (r: Result<Ntfy, NotifyConfigError>)
    ensures
        settings.notifications is None ==> r == Err::<Ntfy, NotifyConfigError>(NotifyConfigError::NoNotifications),
        settings.notifications matches Some(n) ==> match n.ntfy {
            Some(c) => r == Ok::<Ntfy, NotifyConfigError>(c),
            None => r == Err::<Ntfy, NotifyConfigError>(NotifyConfigError::NoNtfy),
        },
{
    match &settings.notifications {
        Some(n) => match &n.ntfy {
            Some(c) => Ok(c.duplicate()),
            None => Err(NotifyConfigError::NoNtfy),
        },
        None => Err(NotifyConfigError::NoNotifications),
    }
}

/// A scan result is announced when an update is available.
pub fn needs_notification(workload: &Workload) -> (r: bool)
    ensures
        r == (workload.update_available == UpdateStatus::Available),
{
    workload.update_available == UpdateStatus::Available
}

pub open spec fn update_message_text(w: Workload) -> Seq<char> {
    "Update Available: "@ + w.name@ + " From "@ + w.current_version@ + " to "@ + w.latest_version@
}

pub open spec fn commit_message_text(w: Workload) -> Seq<char> {
    "Deployment "@ + w.name@ + " has been updated to version "@ + w.latest_version@
}

/// The message announcing an available update.
pub fn update_message(workload: &Workload) -> (r: String)
    ensures
        r@ == update_message_text(*workload),
{
    String::from_str("Update Available: ")
        .concat(workload.name.as_str())
        .concat(" From ")
        .concat(workload.current_version.as_str())
        .concat(" to ")
        .concat(workload.latest_version.as_str())
}

/// The message announcing a pushed remediation.
pub fn commit_message(workload: &Workload) -> (r: String)
    ensures
        r@ == commit_message_text(*workload),
{
    String::from_str("Deployment ")
        .concat(workload.name.as_str())
        .concat(" has been updated to version ")
        .concat(workload.latest_version.as_str())
}

} // verus!
