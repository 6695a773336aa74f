//! The notification tool: its parameters, how the urgency text is read, and
//! the replies it gives.

use vstd::prelude::*;
use crate::notify::error::Error;
use crate::notify::notify_client::Urgency;
use crate::text::{
    push_str, string_from_chars, debug_quoted, to_ascii_lowercase, chars_equal, ascii_lowercase,
    str_debug,
};

verus! {

/// Parameters of the notification tool.
pub struct NotifyParams {
    /// The notification title.
    pub summary: String,
    /// Optional longer description shown in the body.
    pub body: Option<String>,
    /// Urgency level: "low", "normal" or "critical", in any letter case.
    pub urgency: Option<String>,
}

/// The urgency named by a text, compared without regard to ASCII letter case.
pub open spec fn named_urgency(u: Seq<char>) -> Option<Urgency> {
    if ascii_lowercase(u) == "low"@ {
        Some(Urgency::Low)
    } else if ascii_lowercase(u) == "normal"@ {
        Some(Urgency::Normal)
    } else if ascii_lowercase(u) == "critical"@ {
        Some(Urgency::Critical)
    } else {
        None
    }
}

/// The reply to an urgency text that names no level.
pub open spec fn invalid_urgency_reply(u: Seq<char>) -> Seq<char> {
    "Error: invalid urgency "@ + str_debug(u) + " (expected \"low\", \"normal\", or \"critical\")"@
}

/// Reads the requested urgency: none when absent, the named level when the
/// text names one, and otherwise the reply that rejects the request.
pub fn parse_urgency(urgency: Option<&str>) -> (r: Result<Option<Urgency>, String>)
    ensures
        urgency is None ==> r == Ok::<Option<Urgency>, String>(None),
        urgency matches Some(u) ==> match named_urgency(u@) {
            Some(level) => r == Ok::<Option<Urgency>, String>(Some(level)),
            None => (r matches Err(m) && m@ == invalid_urgency_reply(u@)),
        },
{
    match urgency {
        None => Ok(None),
        Some(u) => {
            let lowered = to_ascii_lowercase(u);
            if chars_equal(&lowered, "low") {
                Ok(Some(Urgency::Low))
            } else if chars_equal(&lowered, "normal") {
                Ok(Some(Urgency::Normal))
            } else if chars_equal(&lowered, "critical") {
                Ok(Some(Urgency::Critical))
            } else {
                let mut v: Vec<char> = Vec::new();
                push_str(&mut v, "Error: invalid urgency ");
                let q = debug_quoted(u);
                push_str(&mut v, q.as_str());
                push_str(&mut v, " (expected \"low\", \"normal\", or \"critical\")");
                Err(string_from_chars(v.as_slice()))
            }
        },
    }
}

/// The reply once the notification for `summary` was sent, or failed.
pub open spec fn spec_notify_reply(summary: Seq<char>, outcome: Result<(), Error>) -> Seq<char> {
    match outcome {
        Ok(()) => "Notification sent: "@ + summary,
        Err(e) => "Error: "@ + e.spec_message(),
    }
}

/// The text that answers a notification request.
pub fn notify_reply(summary: &str, outcome: &Result<(), Error>) -> (r: String)
    ensures
        r@ == spec_notify_reply(summary@, *outcome),
{
    let mut v: Vec<char> = Vec::new();
    match outcome {
        Ok(()) => {
            push_str(&mut v, "Notification sent: ");
            push_str(&mut v, summary);
        },
        Err(e) => {
            push_str(&mut v, "Error: ");
            let m = e.message();
            push_str(&mut v, m.as_str());
        },
    }
    string_from_chars(v.as_slice())
}

/// The urgency read from a text depends on its letters alone, not on their
/// ASCII case: two texts that lower-case alike name the same level.
pub proof fn lemma_urgency_ignores_case(u: Seq<char>, v: Seq<char>)
    requires
        ascii_lowercase(u) == ascii_lowercase(v),
    ensures
        named_urgency(u) == named_urgency(v),
{
}

/// The three level names, in lower case, name the three levels, and any
/// text that lower-cases to one of them names that level.
pub proof fn lemma_urgency_names(u: Seq<char>)
    ensures
        named_urgency("low"@) == Some(Urgency::Low),
        named_urgency("normal"@) == Some(Urgency::Normal),
        named_urgency("critical"@) == Some(Urgency::Critical),
        ascii_lowercase(u) == "low"@ ==> named_urgency(u) == Some(Urgency::Low),
        ascii_lowercase(u) == "normal"@ ==> named_urgency(u) == Some(Urgency::Normal),
        ascii_lowercase(u) == "critical"@ ==> named_urgency(u) == Some(Urgency::Critical),
{
    reveal_strlit("low");
    reveal_strlit("normal");
    reveal_strlit("critical");
    assert(ascii_lowercase("low"@) =~= "low"@);
    assert(ascii_lowercase("normal"@) =~= "normal"@);
    assert(ascii_lowercase("critical"@) =~= "critical"@);
    if ascii_lowercase(u) == "low"@ {
        lemma_urgency_ignores_case(u, "low"@);
    }
    if ascii_lowercase(u) == "normal"@ {
        lemma_urgency_ignores_case(u, "normal"@);
    }
    if ascii_lowercase(u) == "critical"@ {
        lemma_urgency_ignores_case(u, "critical"@);
    }
}

} // verus!
