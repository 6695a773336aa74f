//! Errors of the calendar server.

use vstd::prelude::*;
use crate::text::{push_str, string_from_chars};

verus! {

/// Why calendar events could not be listed.
#[derive(Debug)]
pub enum Error {
    /// Fetching a feed failed; holds the HTTP client's message.
    Http(String),
    /// A feed is not valid iCalendar data; holds the parser's message.
    Parse(String),
    /// No calendar feed is configured.
    NoCalendars,
}

impl Error {
    /// The human-readable description of the error.
    pub open spec fn spec_message(&self) -> Seq<char> {
        match self {
            Error::Http(m) => "HTTP request failed: "@ + m@,
            Error::Parse(m) => "iCal parse error: "@ + m@,
            Error::NoCalendars =>
                "no calendars configured — add entries to ~/.config/gcal-mcp/config.toml"@,
        }
    }

    /// The human-readable description of the error.
    pub fn message(&self) -> (r: String)
        ensures
            r@ == self.spec_message(),
    {
        let mut v: Vec<char> = Vec::new();
        match self {
            Error::Http(m) => {
                push_str(&mut v, "HTTP request failed: ");
                push_str(&mut v, m.as_str());
            },
            Error::Parse(m) => {
                push_str(&mut v, "iCal parse error: ");
                push_str(&mut v, m.as_str());
            },
            Error::NoCalendars => {
                push_str(
                    &mut v,
                    "no calendars configured — add entries to ~/.config/gcal-mcp/config.toml",
                );
            },
        }
        string_from_chars(v.as_slice())
    }
}

} // verus!
