//! Expanding recurrence rules with the `rrule` crate.

use vstd::prelude::*;
use crate::clock::representable;

verus! {

/// `s` holds no line feed, so it stays one line of an iCalendar block.
pub open spec fn no_line_break(s: Seq<char>) -> bool {
    forall|i: int| 0 <= i < s.len() ==> s[i] != '\n'
}

/// A `DTSTART` line that names the zone of its start: by a `TZID`
/// parameter, or as a UTC time ending in `Z`. `rrule` reads a start that
/// names no zone, such as a bare date, in the machine's local time zone.
pub open spec fn names_its_zone(line: Seq<char>) -> bool {
    ||| (line.len() >= 13 && line.subrange(0, 13) == "DTSTART;TZID="@)
    ||| (line.len() >= 9 && line.subrange(0, 8) == "DTSTART:"@ && line.last() == 'Z')
}

/// The start line and rule of a block whose expansion does not depend on
/// the machine: each is one line and the start names its zone. A rule
/// whose `UNTIL` names no zone is then refused by `rrule`'s validation on
/// every machine alike.
pub open spec fn zone_fixed(line: Seq<char>, rule: Seq<char>) -> bool {
    no_line_break(line) && no_line_break(rule) && names_its_zone(line)
}

/// What `rrule` gives for an iCalendar block `DTSTART...\nRRULE:...` whose
/// start names its zone, restricted to the inclusive window from `after` to
/// `before` (seconds since the epoch) and cut off after `limit`
/// occurrences: the occurrences as seconds since the epoch, or `None` when
/// the block does not parse.
pub uninterp spec fn rrule_expansion(block: Seq<char>, after: int, before: int, limit: int) -> Option<Seq<i64>>;

/// The occurrences of the recurrence that `block` describes within the
/// inclusive window from `after` to `before`, at most `limit` of them.
///
/// Trusted: wraps `<rrule::RRuleSet as FromStr>::from_str`, then
/// `RRuleSet::after`, `RRuleSet::before` and `RRuleSet::all`. The contract
/// claims, as `rrule`'s source shows (`all` keeps only dates inside the
/// inclusive window and stops at the limit), that every occurrence lies in
/// the window and that there are at most `limit`. It names the outcome
/// (`rrule_expansion`) only for a block made of a start line and a rule
/// that are `zone_fixed`: `rrule` reads a `DTSTART` or `UNTIL` without a
/// zone in the machine's local time zone, so for other blocks the outcome
/// is left unsaid. Nothing is claimed of the order of the occurrences.
#[verifier::external_body]
pub(crate) fn rrule_occurrences(block: &str, after: i64, before: i64, limit: u16) -> (r: Option<Vec<i64>>)
    requires
        representable(after as int),
        representable(before as int),
    ensures
        r matches Some(v) ==> v@.len() <= limit,
        r matches Some(v) ==> forall|i: int| 0 <= i < v@.len() ==> after <= #[trigger] v@[i] <= before,
        (exists|line: Seq<char>, rule: Seq<char>|
            #[trigger] zone_fixed(line, rule) && block@ == line + "\nRRULE:"@ + rule) ==> {
            &&& (r is Some <==> rrule_expansion(block@, after as int, before as int, limit as int) is Some)
            &&& (r matches Some(v) ==> rrule_expansion(block@, after as int, before as int, limit as int) == Some(v@))
        },
{
    let set: rrule::RRuleSet = block.parse().ok()?;
    let after = chrono::DateTime::from_timestamp(after, 0)?.with_timezone(&rrule::Tz::UTC);
    let before = chrono::DateTime::from_timestamp(before, 0)?.with_timezone(&rrule::Tz::UTC);
    Some(set.after(after).before(before).all(limit).dates.iter().map(|d| d.timestamp()).collect())
}

} // verus!
