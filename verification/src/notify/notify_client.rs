//! The notification client: its urgency levels and what a request sends.

use vstd::prelude::*;

verus! {

/// Sends desktop notifications through the running notification daemon
/// (Mako, dunst, libnotify and others).
#[derive(Debug, Clone, Copy, Default)]
pub struct NotifyClient;

/// Notification urgency level.
#[derive(Debug, Clone, Copy, PartialEq, Eq, Structural)]
pub enum Urgency {
    Low,
    Normal,
    Critical,
}

impl NotifyClient {
    pub fn new() -> (r: Self)
        ensures
            r == NotifyClient,
    {
        NotifyClient
    }

    /// The urgency a notification is shown with: the requested one, or
    /// normal when none was requested.
    pub fn effective_urgency(&self, urgency: Option<Urgency>) -> (r: Urgency)
        ensures
            r == match urgency {
                Some(u) => u,
                None => Urgency::Normal,
            },
    {
        match urgency {
            Some(u) => u,
            None => Urgency::Normal,
        }
    }
}

} // verus!
