//! Errors of the notification server.

use vstd::prelude::*;
use crate::text::{push_str, string_from_chars};

verus! {

/// Why a notification could not be shown.
#[derive(Debug)]
pub enum Error {
    /// The notification daemon refused or could not be reached; holds its message.
    Notify(String),
}

impl Error {
    /// The human-readable description of the error.
    pub open spec fn spec_message(&self) -> Seq<char> {
        match self {
            Error::Notify(m) => "notification error: "@ + m@,
        }
    }

    /// The human-readable description of the error.
    pub fn message(&self) -> (r: String)
        ensures
            r@ == self.spec_message(),
    {
        let mut v: Vec<char> = Vec::new();
        match self {
            Error::Notify(m) => {
                push_str(&mut v, "notification error: ");
                push_str(&mut v, m.as_str());
            },
        }
        string_from_chars(v.as_slice())
    }
}

} // verus!
