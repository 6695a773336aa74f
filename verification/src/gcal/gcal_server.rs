//! The calendar tool: its parameters, the listing it writes and its replies.

use vstd::prelude::*;
use crate::clock::{representable, chrono_format_utc, day_of, format_utc, day_of_instant};
use crate::gcal::error::Error;
use crate::gcal::gcal_client::{
    CalEvent, CalendarConfig, ConfigOutcome, spec_plan_upcoming, sorted_by_start,
};
use crate::text::{
    push_str, push_chars, push_decimal, string_from_chars, strip_leading_newlines, strip_start,
    decimal, join_lines, push_line,
};

verus! {

/// Parameters of the tool that lists upcoming events.
pub struct ListEventsParams {
    /// Number of days ahead to include (default 7, at most 90).
    pub days: Option<u32>,
}

/// The number of days a listing covers: 7 unless asked, and never more than 90.
pub fn effective_days(days: Option<u32>) -> (r: u32)
    ensures
        r == (match days {
            Some(d) => if d < 90 { d } else { 90 },
            None => 7,
        }),
{
    let d = match days {
        Some(d) => d,
        None => 7,
    };
    if d < 90 { d } else { 90 }
}

/// The calendars a server starts with: those of a loaded configuration, and
/// none when the configuration file is missing or could not be read.
pub open spec fn spec_configured_calendars(outcome: Result<ConfigOutcome, String>) -> Seq<CalendarConfig> {
    match outcome {
        Ok(ConfigOutcome::Loaded(c)) => c@,
        _ => Seq::empty(),
    }
}

/// The calendars a server starts with: those of a loaded configuration, and
/// none when the configuration file is missing or could not be read.
pub fn configured_calendars(outcome: Result<ConfigOutcome, String>) -> (r: Vec<CalendarConfig>)
    ensures
        outcome matches Ok(ConfigOutcome::Loaded(c)) ==> r == c,
        r@ == spec_configured_calendars(outcome),
{
    match outcome {
        Ok(ConfigOutcome::Loaded(c)) => c,
        Ok(ConfigOutcome::Missing) => Vec::new(),
        Err(_) => Vec::new(),
    }
}

/// Whether the events come from more than one calendar.
pub open spec fn several_calendars(events: Seq<CalEvent>) -> bool {
    exists|i: int| 0 <= i < events.len() && (#[trigger] events[i]).calendar@ != events[0].calendar@
}

/// The heading line before the first event of a day.
pub open spec fn day_heading(e: CalEvent) -> Seq<char> {
    "\n"@ + chrono_format_utc(e.start as int, "%A, %B %-d"@)
}

/// The line of one event: its time (or "All day"), title, location in
/// brackets when known, and calendar in parentheses when several are listed.
pub open spec fn event_line(e: CalEvent, several: bool) -> Seq<char> {
    let time = if e.all_day {
        "All day"@
    } else {
        chrono_format_utc(e.start as int, "%H:%M UTC"@)
    };
    let base = "  "@ + time + "  "@ + e.summary@;
    let located = match e.location {
        Some(l) => base + "  ["@ + l@ + "]"@,
        None => base,
    };
    if several {
        located + "  ("@ + e.calendar@ + ")"@
    } else {
        located
    }
}

/// Whether event `i` is the first of its day (UTC) among consecutive events.
pub open spec fn starts_new_day(events: Seq<CalEvent>, i: int) -> bool {
    i == 0 || day_of(events[i - 1].start as int) != day_of(events[i].start as int)
}

/// The lines that list the first `n` events.
pub open spec fn listing_lines(events: Seq<CalEvent>, n: int, several: bool) -> Seq<Seq<char>>
    decreases n,
{
    if n <= 0 {
        Seq::empty()
    } else {
        listing_lines(events, n - 1, several) + (if starts_new_day(events, n - 1) {
            seq![day_heading(events[n - 1])]
        } else {
            Seq::<Seq<char>>::empty()
        }) + seq![event_line(events[n - 1], several)]
    }
}

/// The listing of `events` for a window of `days` days.
pub open spec fn spec_format_events(events: Seq<CalEvent>, days: u32) -> Seq<char> {
    if events.len() == 0 {
        "No upcoming events in the next "@ + decimal(days as nat) + " day(s)."@
    } else {
        strip_start(
            join_lines(listing_lines(events, events.len() as int, several_calendars(events))),
            |c: char| c == '\n',
        )
    }
}

/// The listing of upcoming events, grouped under a heading for each day.
pub fn format_events(events: &[CalEvent], days: u32) -> (r: String)
    requires
        forall|i: int| 0 <= i < events@.len() ==> representable((#[trigger] events@[i]).start as int),
    ensures
        r@ == spec_format_events(events@, days),
{
    if events.len() == 0 {
        let mut v: Vec<char> = Vec::new();
        push_str(&mut v, "No upcoming events in the next ");
        push_decimal(&mut v, days as u128);
        push_str(&mut v, " day(s).");
        return string_from_chars(v.as_slice());
    }
    let mut several = false;
    let mut k: usize = 1;
    while k < events.len()
        invariant
            1 <= k <= events@.len(),
            several == exists|i: int| 0 <= i < k && (#[trigger] events@[i]).calendar@ != events@[0].calendar@,
        decreases events.len() - k,
    {
        if events[k].calendar != events[0].calendar {
            several = true;
        }
        k = k + 1;
    }
    assert(several == several_calendars(events@));
    let mut out: Vec<char> = Vec::new();
    let ghost mut lines: Seq<Seq<char>> = Seq::empty();
    let mut i: usize = 0;
    while i < events.len()
        invariant
            i <= events@.len(),
            several == several_calendars(events@),
            forall|j: int| 0 <= j < events@.len() ==> representable((#[trigger] events@[j]).start as int),
            lines == listing_lines(events@, i as int, several),
            out@ == join_lines(lines),
            i == 0 ==> lines.len() == 0,
        decreases events.len() - i,
    {
        let e = &events[i];
        let ghost start_lines = lines;
        let new_day = if i == 0 {
            true
        } else {
            day_of_instant(events[i - 1].start) != day_of_instant(e.start)
        };
        if new_day {
            let mut h: Vec<char> = Vec::new();
            h.push('\n');
            let d = format_utc(e.start, "%A, %B %-d");
            push_str(&mut h, d.as_str());
            assert(h@ =~= day_heading(*e)) by {
                reveal_strlit("\n");
            }
            push_line(&mut out, Ghost(lines), i == 0, &h);
            proof {
                lines = lines.push(h@);
            }
        }
        let mut line: Vec<char> = Vec::new();
        push_str(&mut line, "  ");
        if e.all_day {
            push_str(&mut line, "All day");
        } else {
            let t = format_utc(e.start, "%H:%M UTC");
            push_str(&mut line, t.as_str());
        }
        push_str(&mut line, "  ");
        push_str(&mut line, e.summary.as_str());
        if let Some(loc) = &e.location {
            push_str(&mut line, "  [");
            push_str(&mut line, loc.as_str());
            push_str(&mut line, "]");
        }
        if several {
            push_str(&mut line, "  (");
            push_str(&mut line, e.calendar.as_str());
            push_str(&mut line, ")");
        }
        assert(line@ =~= event_line(*e, several));
        push_line(&mut out, Ghost(lines), i == 0 && !new_day, &line);
        proof {
            lines = lines.push(line@);
            assert(lines =~= listing_lines(events@, i + 1, several));
        }
        i = i + 1;
    }
    let stripped = strip_leading_newlines(&out);
    string_from_chars(stripped.as_slice())
}

/// The reply of the listing tool: the listing, or the reason none was made.
pub open spec fn spec_list_events_reply(outcome: Result<Vec<CalEvent>, Error>, days: u32) -> Seq<char> {
    match outcome {
        Ok(events) => spec_format_events(events@, days),
        Err(e) => "Error fetching calendar events: "@ + e.spec_message(),
    }
}

/// The text that answers a request to list the events of the next `days` days.
pub fn list_events_reply(outcome: &Result<Vec<CalEvent>, Error>, days: u32) -> (r: String)
    requires
        outcome matches Ok(events) ==> forall|i: int| 0 <= i < events@.len() ==> representable((#[trigger] events@[i]).start as int),
    ensures
        r@ == spec_list_events_reply(*outcome, days),
{
    match outcome {
        Ok(events) => format_events(events.as_slice(), days),
        Err(e) => {
            let mut v: Vec<char> = Vec::new();
            push_str(&mut v, "Error fetching calendar events: ");
            let m = e.message();
            push_str(&mut v, m.as_str());
            string_from_chars(v.as_slice())
        },
    }
}

/// A server whose configuration file is missing or could not be read starts
/// with no calendars, so planning a listing refuses with `NoCalendars`
/// whatever the window, and the listing tool answers that no calendars are
/// configured.
pub proof fn lemma_unconfigured_server_answers(outcome: Result<ConfigOutcome, String>, now: int, days: u32)
    requires
        !(outcome matches Ok(ConfigOutcome::Loaded(_))),
    ensures
        spec_configured_calendars(outcome).len() == 0,
        spec_plan_upcoming(spec_configured_calendars(outcome), now, days) is None,
        spec_list_events_reply(Err(Error::NoCalendars), days)
            == "Error fetching calendar events: no calendars configured — add entries to ~/.config/gcal-mcp/config.toml"@,
{
    reveal_strlit("Error fetching calendar events: ");
    reveal_strlit("no calendars configured — add entries to ~/.config/gcal-mcp/config.toml");
    reveal_strlit("Error fetching calendar events: no calendars configured — add entries to ~/.config/gcal-mcp/config.toml");
    assert(spec_list_events_reply(Err(Error::NoCalendars), days)
        =~= "Error fetching calendar events: no calendars configured — add entries to ~/.config/gcal-mcp/config.toml"@);
}

/// The listing puts a day heading before event `i` exactly when it is the
/// first event or falls on another UTC day than the event before it; the
/// heading names event `i`'s day, and the event's own line follows.
pub proof fn lemma_heading_before_new_day(events: Seq<CalEvent>, i: int, several: bool)
    requires
        0 <= i < events.len(),
    ensures
        (i == 0 || day_of(events[i - 1].start as int) != day_of(events[i].start as int))
            ==> listing_lines(events, i + 1, several) == listing_lines(events, i, several) + seq![
            day_heading(events[i]),
            event_line(events[i], several),
        ],
        !(i == 0 || day_of(events[i - 1].start as int) != day_of(events[i].start as int))
            ==> listing_lines(events, i + 1, several) == listing_lines(events, i, several).push(
            event_line(events[i], several),
        ),
{
    assert(seq![day_heading(events[i])] + seq![event_line(events[i], several)] =~= seq![
        day_heading(events[i]),
        event_line(events[i], several),
    ]);
    assert(Seq::<Seq<char>>::empty() + seq![event_line(events[i], several)] =~= seq![
        event_line(events[i], several),
    ]);
}

/// For events in order of their start, each day gets one heading: an event
/// on the same UTC day as an earlier one is listed with no heading before it.
pub proof fn lemma_one_heading_per_day(events: Seq<CalEvent>, i: int, j: int, several: bool)
    requires
        sorted_by_start(events),
        0 <= i < j < events.len(),
        day_of(events[i].start as int) == day_of(events[j].start as int),
    ensures
        listing_lines(events, j + 1, several) == listing_lines(events, j, several).push(
            event_line(events[j], several),
        ),
{
    let a = events[i].start as int;
    let b = events[j - 1].start as int;
    let c = events[j].start as int;
    assert(a <= b && b <= c);
    vstd::arithmetic::div_mod::lemma_div_is_ordered(a, b, 86400);
    vstd::arithmetic::div_mod::lemma_div_is_ordered(b, c, 86400);
    assert(day_of(b) == day_of(c));
    lemma_heading_before_new_day(events, j, several);
}

/// Calendar names are shown exactly when the events come from at least two
/// calendars.
pub proof fn lemma_several_calendars_iff_two_differ(events: Seq<CalEvent>)
    ensures
        several_calendars(events) <==> exists|i: int, j: int|
            0 <= i < events.len() && 0 <= j < events.len() && (#[trigger] events[i]).calendar@
                != (#[trigger] events[j]).calendar@,
{
    if exists|i: int, j: int|
        0 <= i < events.len() && 0 <= j < events.len() && (#[trigger] events[i]).calendar@
            != (#[trigger] events[j]).calendar@ {
        let (i, j) = choose|i: int, j: int|
            0 <= i < events.len() && 0 <= j < events.len() && (#[trigger] events[i]).calendar@
                != (#[trigger] events[j]).calendar@;
        if events[i].calendar@ == events[0].calendar@ {
            assert(events[j].calendar@ != events[0].calendar@);
        }
    }
    if several_calendars(events) {
        let i = choose|i: int| 0 <= i < events.len() && (#[trigger] events[i]).calendar@ != events[0].calendar@;
        assert(events[i].calendar@ != events[0].calendar@);
    }
}

/// The line of event `k` in the listing names its calendar in parentheses
/// exactly when the listed events come from at least two calendars.
pub proof fn lemma_event_line_names_calendar(events: Seq<CalEvent>, k: int)
    requires
        0 <= k < events.len(),
    ensures
        listing_lines(events, k + 1, several_calendars(events)).last() == event_line(events[k], false)
            + (if exists|i: int, j: int|
            0 <= i < events.len() && 0 <= j < events.len() && (#[trigger] events[i]).calendar@
                != (#[trigger] events[j]).calendar@ {
            "  ("@ + events[k].calendar@ + ")"@
        } else {
            Seq::empty()
        }),
{
    lemma_several_calendars_iff_two_differ(events);
    lemma_heading_before_new_day(events, k, several_calendars(events));
    let e = events[k];
    if several_calendars(events) {
        assert(event_line(e, true) == event_line(e, false) + "  ("@ + e.calendar@ + ")"@);
    } else {
        assert(event_line(e, false) + Seq::<char>::empty() =~= event_line(e, false));
    }
}

} // verus!
