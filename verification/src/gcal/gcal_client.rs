//! The calendar client: configured feeds, the event model, conversion of
//! iCalendar dates and times to UTC instants, recurrence expansion, and the
//! assembly of upcoming events from feeds.

use vstd::prelude::*;
use chrono::TimeZone;
use crate::clock::{representable, representable_day, chrono_format_utc, format_utc};
use crate::gcal::error::Error;
use crate::gcal::ical::{IcalComponent, IcalEvent, parse_calendar, read_components, ical_parse};
use crate::gcal::recurrence::{rrule_occurrences, rrule_expansion, zone_fixed};
use crate::text::{push_str, string_from_chars};

verus! {

// ── Calendar configuration ────────────────────────────────────────────────────

/// One configured calendar feed.
#[derive(Debug, Clone)]
pub struct CalendarConfig {
    /// The label shown beside the calendar's events.
    pub name: String,
    /// The private iCalendar feed URL.
    pub url: String,
}

/// Outcome of attempting to load the configuration file.
#[derive(Debug)]
pub enum ConfigOutcome {
    /// File loaded successfully (may still be empty).
    Loaded(Vec<CalendarConfig>),
    /// File does not exist: no calendars are configured.
    Missing,
}

// ── Event model ───────────────────────────────────────────────────────────────

/// An upcoming calendar event. Instants are seconds since the Unix epoch (UTC).
#[derive(Debug, Clone)]
pub struct CalEvent {
    pub calendar: String,
    pub summary: String,
    pub start: i64,
    pub end: Option<i64>,
    pub location: Option<String>,
    pub all_day: bool,
}

/// The content of a [`CalEvent`].
pub struct CalEventView {
    pub calendar: Seq<char>,
    pub summary: Seq<char>,
    pub start: int,
    pub end: Option<int>,
    pub location: Option<Seq<char>>,
    pub all_day: bool,
}

impl View for CalEvent {
    type V = CalEventView;

    open spec fn view(&self) -> CalEventView {
        CalEventView {
            calendar: self.calendar@,
            summary: self.summary@,
            start: self.start as int,
            end: match self.end {
                Some(e) => Some(e as int),
                None => None,
            },
            location: opt_view(self.location),
            all_day: self.all_day,
        }
    }
}

/// The characters of an optional string.
pub open spec fn opt_view(s: Option<String>) -> Option<Seq<char>> {
    match s {
        Some(t) => Some(t@),
        None => None,
    }
}

/// The contents of a list of events.
pub open spec fn event_views(s: Seq<CalEvent>) -> Seq<CalEventView> {
    s.map_values(|e: CalEvent| e@)
}

// ── Dates and times of iCalendar properties ───────────────────────────────────

/// A date-time as iCalendar writes it. Wall-clock times are held as the
/// seconds since the epoch that the same wall-clock reading has in UTC.
#[derive(Debug, Clone)]
pub enum CalendarDateTime {
    /// A wall-clock time with no time zone.
    Floating(i64),
    /// An instant in UTC.
    Utc(i64),
    /// A wall-clock time in the named time zone.
    WithTimezone { date_time: i64, tzid: String },
}

/// Either a date-time or a whole day (days since 1970-01-01).
#[derive(Debug, Clone)]
pub enum DatePerhapsTime {
    DateTime(CalendarDateTime),
    Date(i64),
}

impl CalendarDateTime {
    /// The time lies in the range of the calendar library.
    pub open spec fn wf(&self) -> bool {
        match self {
            CalendarDateTime::Floating(t) => representable(*t as int),
            CalendarDateTime::Utc(t) => representable(*t as int),
            CalendarDateTime::WithTimezone { date_time, tzid: _ } => representable(*date_time as int),
        }
    }
}

impl DatePerhapsTime {
    /// The date or time lies in the range of the calendar library.
    pub open spec fn wf(&self) -> bool {
        match self {
            DatePerhapsTime::DateTime(dt) => dt.wf(),
            DatePerhapsTime::Date(d) => representable_day(*d as int),
        }
    }
}

/// The UTC instant at which the wall-clock reading `local` (as seconds) first
/// occurs in the time zone `tzid`; `None` when `tzid` names no known zone or
/// the reading does not occur there.
pub uninterp spec fn zone_local_to_utc(tzid: Seq<char>, local: int) -> Option<int>;

/// The UTC instant of a wall-clock reading in a named time zone.
///
/// Trusted: wraps `<chrono_tz::Tz as FromStr>::from_str`, then
/// `TimeZone::from_local_datetime` and `LocalResult::earliest`; the contract
/// claims that the outcome depends on its arguments alone and that a found
/// instant lies in chrono's range.
#[verifier::external_body]
fn local_time_in_zone(tzid: &str, local: i64) -> (r: Option<i64>)
    requires
        representable(local as int),
    ensures
        r matches Some(u) ==> zone_local_to_utc(tzid@, local as int) == Some(u as int),
        r is None ==> zone_local_to_utc(tzid@, local as int) is None,
        r matches Some(u) ==> representable(u as int),
{
    let tz: chrono_tz::Tz = tzid.parse().ok()?;
    let naive = chrono::DateTime::from_timestamp(local, 0)?.naive_utc();
    tz.from_local_datetime(&naive).earliest().map(|dt| dt.timestamp())
}

/// The UTC instant of an iCalendar date-time. Floating times are read as
/// UTC; zoned times are looked up in their zone and read as UTC when the zone
/// is unknown or the reading does not occur in it.
pub open spec fn spec_cal_datetime_to_utc(dt: CalendarDateTime) -> int {
    match dt {
        CalendarDateTime::Utc(t) => t as int,
        CalendarDateTime::Floating(t) => t as int,
        CalendarDateTime::WithTimezone { date_time, tzid } => {
            match zone_local_to_utc(tzid@, date_time as int) {
                Some(u) => u,
                None => date_time as int,
            }
        },
    }
}

/// The instant at which the day `date` starts, in UTC.
pub fn naive_date_to_utc(date: i64) -> (r: i64)
    requires
        representable_day(date as int),
    ensures
        r == date * 86400,
        representable(r as int),
{
    date * 86400
}

/// The UTC instant of an iCalendar date-time.
pub fn cal_datetime_to_utc(dt: &CalendarDateTime) -> (r: i64)
    requires
        dt.wf(),
    ensures
        r == spec_cal_datetime_to_utc(*dt),
        representable(r as int),
{
    match dt {
        CalendarDateTime::Utc(t) => *t,
        CalendarDateTime::Floating(t) => *t,
        CalendarDateTime::WithTimezone { date_time, tzid } => {
            match local_time_in_zone(tzid.as_str(), *date_time) {
                Some(u) => u,
                None => *date_time,
            }
        },
    }
}

/// The UTC instant of an iCalendar date or date-time, and whether it is a
/// whole day (which starts at midnight UTC).
pub open spec fn spec_date_perhaps_time_to_utc(dt: DatePerhapsTime) -> (int, bool) {
    match dt {
        DatePerhapsTime::DateTime(cdt) => (spec_cal_datetime_to_utc(cdt), false),
        DatePerhapsTime::Date(d) => (d * 86400, true),
    }
}

/// The UTC instant of an iCalendar date or date-time, and whether it is a whole day.
pub fn date_perhaps_time_to_utc(dt: &DatePerhapsTime) -> (r: (i64, bool))
    requires
        dt.wf(),
    ensures
        (r.0 as int, r.1) == spec_date_perhaps_time_to_utc(*dt),
        representable(r.0 as int),
{
    match dt {
        DatePerhapsTime::DateTime(cdt) => (cal_datetime_to_utc(cdt), false),
        DatePerhapsTime::Date(d) => (naive_date_to_utc(*d), true),
    }
}

// ── Recurrence expansion ──────────────────────────────────────────────────────

/// The `DTSTART` line that introduces a recurrence rule for an event starting
/// at `dt`: times in UTC and floating times end in `Z`, zoned times carry
/// their `TZID`, and whole days are bare dates (which `rrule` reads in the
/// machine's local time zone).
pub open spec fn spec_dtstart_ical_line(dt: DatePerhapsTime) -> Seq<char> {
    match dt {
        DatePerhapsTime::DateTime(CalendarDateTime::Utc(t)) =>
            "DTSTART:"@ + chrono_format_utc(t as int, "%Y%m%dT%H%M%S"@) + "Z"@,
        DatePerhapsTime::DateTime(CalendarDateTime::Floating(t)) =>
            "DTSTART:"@ + chrono_format_utc(t as int, "%Y%m%dT%H%M%S"@) + "Z"@,
        DatePerhapsTime::DateTime(CalendarDateTime::WithTimezone { date_time, tzid }) =>
            "DTSTART;TZID="@ + tzid@ + ":"@ + chrono_format_utc(date_time as int, "%Y%m%dT%H%M%S"@),
        DatePerhapsTime::Date(d) =>
            "DTSTART;VALUE=DATE:"@ + chrono_format_utc(d * 86400, "%Y%m%d"@),
    }
}

/// The `DTSTART` line that introduces a recurrence rule for an event starting at `dt`.
pub fn dtstart_ical_line(dt: &DatePerhapsTime) -> (r: String)
    requires
        dt.wf(),
    ensures
        r@ == spec_dtstart_ical_line(*dt),
{
    let mut v: Vec<char> = Vec::new();
    match dt {
        DatePerhapsTime::DateTime(CalendarDateTime::Utc(t)) => {
            push_str(&mut v, "DTSTART:");
            let s = format_utc(*t, "%Y%m%dT%H%M%S");
            push_str(&mut v, s.as_str());
            push_str(&mut v, "Z");
        },
        DatePerhapsTime::DateTime(CalendarDateTime::Floating(t)) => {
            push_str(&mut v, "DTSTART:");
            let s = format_utc(*t, "%Y%m%dT%H%M%S");
            push_str(&mut v, s.as_str());
            push_str(&mut v, "Z");
        },
        DatePerhapsTime::DateTime(CalendarDateTime::WithTimezone { date_time, tzid }) => {
            push_str(&mut v, "DTSTART;TZID=");
            push_str(&mut v, tzid.as_str());
            push_str(&mut v, ":");
            let s = format_utc(*date_time, "%Y%m%dT%H%M%S");
            push_str(&mut v, s.as_str());
        },
        DatePerhapsTime::Date(d) => {
            push_str(&mut v, "DTSTART;VALUE=DATE:");
            let midnight = naive_date_to_utc(*d);
            let s = format_utc(midnight, "%Y%m%d");
            push_str(&mut v, s.as_str());
        },
    }
    string_from_chars(v.as_slice())
}

/// The most occurrences of one recurring event that are listed.
pub const MAX_OCCURRENCES: u16 = 500u16;

/// `s` keeps, in order, each element that lies before `cutoff` and is later
/// than every element kept before it.
pub open spec fn increasing_before(s: Seq<i64>, cutoff: int) -> Seq<i64>
    decreases s.len(),
{
    if s.len() == 0 {
        Seq::empty()
    } else {
        let p = increasing_before(s.drop_last(), cutoff);
        let x = s.last();
        if x < cutoff && (p.len() == 0 || p.last() < x) {
            p.push(x)
        } else {
            p
        }
    }
}

proof fn lemma_increasing_before(s: Seq<i64>, cutoff: int, lo: int)
    requires
        forall|i: int| 0 <= i < s.len() ==> lo <= #[trigger] s[i],
    ensures
        increasing_before(s, cutoff).len() <= s.len(),
        forall|i: int|
            0 <= i < increasing_before(s, cutoff).len() ==> lo <= #[trigger] increasing_before(s, cutoff)[i]
                < cutoff,
        forall|i: int, j: int|
            0 <= i < j < increasing_before(s, cutoff).len() ==> increasing_before(s, cutoff)[i]
                < increasing_before(s, cutoff)[j],
    decreases s.len(),
{
    if s.len() > 0 {
        lemma_increasing_before(s.drop_last(), cutoff, lo);
    }
}

/// The iCalendar block that `rrule` expands for an event starting at
/// `start` and recurring by `rrule_text`.
pub open spec fn recurrence_block(start: DatePerhapsTime, rrule_text: Seq<char>) -> Seq<char> {
    spec_dtstart_ical_line(start) + "\nRRULE:"@ + rrule_text
}

/// Whether the expansion is the same on every machine: the start names its
/// zone and the rule is one line. Whole-day starts and rules holding a line
/// break are read by `rrule` in the machine's local time zone.
pub open spec fn expansion_determined(start: DatePerhapsTime, rrule_text: Seq<char>) -> bool {
    zone_fixed(spec_dtstart_ical_line(start), rrule_text)
}

/// The occurrences of a determined expansion from `now` (included) to
/// `cutoff` (excluded), in increasing order: none when the block does not
/// parse, and at most [`MAX_OCCURRENCES`].
pub open spec fn spec_expand_recurring(start: DatePerhapsTime, rrule_text: Seq<char>, now: int, cutoff: int) -> Seq<i64> {
    match rrule_expansion(recurrence_block(start, rrule_text), now, cutoff, MAX_OCCURRENCES as int) {
        Some(v) => increasing_before(v, cutoff),
        None => Seq::empty(),
    }
}

/// What holds of the occurrences `occ` of an event starting at `start` and
/// recurring by `rrule_text`, on any machine: at most [`MAX_OCCURRENCES`] of
/// them, each from `now` (included) to `cutoff` (excluded), in increasing
/// order; and, when the expansion is determined, exactly those of
/// [`spec_expand_recurring`].
pub open spec fn recurrence_outcome(start: DatePerhapsTime, rrule_text: Seq<char>, now: int, cutoff: int, occ: Seq<i64>) -> bool {
    &&& expansion_determined(start, rrule_text) ==> occ == spec_expand_recurring(start, rrule_text, now, cutoff)
    &&& occ.len() <= MAX_OCCURRENCES
    &&& forall|i: int| 0 <= i < occ.len() ==> now <= #[trigger] occ[i] < cutoff
    &&& forall|i: int, j: int| 0 <= i < j < occ.len() ==> occ[i] < occ[j]
}

/// The occurrences of a recurring event from `now` (included) to `cutoff`
/// (excluded), in increasing order, as `rrule` expands the block
/// `DTSTART...\nRRULE:...`. A whole-day start or a rule holding a line break
/// is read in the machine's local time zone, so its occurrences are only
/// bounded, not fixed, by the contract.
pub fn expand_recurring(start: &DatePerhapsTime, rrule_text: &str, now: i64, cutoff: i64) -> (r: Vec<i64>)
    requires
        start.wf(),
        representable(now as int),
        representable(cutoff as int),
    ensures
        recurrence_outcome(*start, rrule_text@, now as int, cutoff as int, r@),
        r@.len() <= MAX_OCCURRENCES,
        forall|i: int| 0 <= i < r@.len() ==> now <= #[trigger] r@[i] < cutoff,
        forall|i: int, j: int| 0 <= i < j < r@.len() ==> r@[i] < r@[j],
{
    let line = dtstart_ical_line(start);
    let mut v: Vec<char> = Vec::new();
    push_str(&mut v, line.as_str());
    push_str(&mut v, "\nRRULE:");
    push_str(&mut v, rrule_text);
    let block = string_from_chars(v.as_slice());
    proof {
        assert(block@ == line@ + "\nRRULE:"@ + rrule_text@);
        if expansion_determined(*start, rrule_text@) {
            assert(zone_fixed(line@, rrule_text@));
        }
    }
    match rrule_occurrences(block.as_str(), now, cutoff, MAX_OCCURRENCES) {
        Some(dates) => {
            let mut out: Vec<i64> = Vec::new();
            let mut j: usize = 0;
            while j < dates.len()
                invariant
                    j <= dates@.len(),
                    out@ == increasing_before(dates@.subrange(0, j as int), cutoff as int),
                decreases dates@.len() - j,
            {
                let x = dates[j];
                proof {
                    assert(dates@.subrange(0, j + 1).drop_last() =~= dates@.subrange(0, j as int));
                }
                if x < cutoff && (out.len() == 0 || out[out.len() - 1] < x) {
                    out.push(x);
                }
                j = j + 1;
            }
            proof {
                assert(dates@.subrange(0, dates@.len() as int) =~= dates@);
                lemma_increasing_before(dates@, cutoff as int, now as int);
            }
            out
        },
        None => Vec::new(),
    }
}

// ── Events of a feed ──────────────────────────────────────────────────────────

/// The title of an event: its summary, or "(no title)" when it has none or
/// an empty one.
pub open spec fn summary_text(s: Option<String>) -> Seq<char> {
    match s {
        Some(t) => if t@.len() > 0 { t@ } else { "(no title)"@ },
        None => "(no title)"@,
    }
}

/// The event of calendar `name` described by `e`, starting at `start`; its end
/// keeps the distance `duration` from its start.
pub open spec fn event_view_at(name: Seq<char>, e: IcalEvent, start: int, all_day: bool, duration: Option<int>) -> CalEventView {
    CalEventView {
        calendar: name,
        summary: summary_text(e.summary),
        start: start,
        end: match duration {
            Some(d) => Some(start + d),
            None => None,
        },
        location: opt_view(e.location),
        all_day: all_day,
    }
}

/// What holds of the occurrences `occ` found for the component `c`: those of
/// its recurrence for a recurring event with a start, none otherwise.
pub open spec fn component_occurrences(c: IcalComponent, occ: Seq<i64>, now: int, cutoff: int) -> bool {
    match c {
        IcalComponent::Event(e) => match (e.start, e.rrule) {
            (Some(start_raw), Some(text)) => recurrence_outcome(start_raw, text@, now, cutoff, occ),
            _ => occ.len() == 0,
        },
        IcalComponent::Other => occ.len() == 0,
    }
}

/// The occurrences `occs` found for the components `comps`, one list each.
pub open spec fn feed_occurrences(comps: Seq<IcalComponent>, occs: Seq<Seq<i64>>, now: int, cutoff: int) -> bool {
    &&& occs.len() == comps.len()
    &&& forall|i: int| 0 <= i < comps.len() ==> #[trigger] component_occurrences(comps[i], occs[i], now, cutoff)
}

/// The events that one component of a feed contributes, given the
/// occurrences `occ` found for it: nothing for components that are not
/// events or have no start; an event at each occurrence for recurring
/// events; and a one-off event when its start lies in the window from `now`
/// (included) to `cutoff` (excluded).
pub open spec fn component_event_views(name: Seq<char>, c: IcalComponent, occ: Seq<i64>, now: int, cutoff: int) -> Seq<CalEventView> {
    match c {
        IcalComponent::Other => Seq::empty(),
        IcalComponent::Event(e) => match e.start {
            None => Seq::empty(),
            Some(start_raw) => {
                let (start_utc, all_day) = spec_date_perhaps_time_to_utc(start_raw);
                let duration = match e.end {
                    Some(t) => Some(spec_date_perhaps_time_to_utc(t).0 - start_utc),
                    None => None,
                };
                match e.rrule {
                    Some(_) => occ.map_values(
                        |s: i64| event_view_at(name, e, s as int, all_day, duration),
                    ),
                    None => if now <= start_utc && start_utc < cutoff {
                        seq![event_view_at(name, e, start_utc, all_day, duration)]
                    } else {
                        Seq::empty()
                    },
                }
            },
        },
    }
}

/// The events of calendar `name` whose feed holds `comps`, in feed order,
/// given the occurrences `occs` found for its components.
pub open spec fn spec_calendar_events(name: Seq<char>, comps: Seq<IcalComponent>, occs: Seq<Seq<i64>>, now: int, cutoff: int) -> Seq<CalEventView>
    decreases comps.len(),
{
    if comps.len() == 0 {
        Seq::empty()
    } else {
        spec_calendar_events(name, comps.drop_last(), occs.drop_last(), now, cutoff)
            + component_event_views(name, comps.last(), occs.last(), now, cutoff)
    }
}

fn make_event(
    config: &CalendarConfig,
    e: &IcalEvent,
    start: i64,
    all_day: bool,
    duration: Option<i64>,
) -> (r: CalEvent)
    requires
        duration matches Some(d) ==> i64::MIN <= start + d <= i64::MAX,
    ensures
        r@ == event_view_at(config.name@, *e, start as int, all_day, match duration {
            Some(d) => Some(d as int),
            None => None,
        }),
{
    let summary = match &e.summary {
        Some(s) => if !s.as_str().is_empty() { s.clone() } else { "(no title)".to_owned() },
        None => "(no title)".to_owned(),
    };
    let location = match &e.location {
        Some(l) => Some(l.clone()),
        None => None,
    };
    let end = match duration {
        Some(d) => Some(start + d),
        None => None,
    };
    CalEvent { calendar: config.name.clone(), summary, start, end, location, all_day }
}

/// The events of calendar `config` whose feed holds `components`, that lie
/// from `now` (included) to `cutoff` (excluded); recurring events are expanded.
#[verifier::loop_isolation(false)]
pub fn events_from_components(
    config: &CalendarConfig,
    components: &Vec<IcalComponent>,
    now: i64,
    cutoff: i64,
) -> (r: Vec<CalEvent>)
    requires
        representable(now as int),
        representable(cutoff as int),
        forall|i: int| 0 <= i < components@.len() ==> (#[trigger] components@[i]).wf(),
    ensures
        exists|occs: Seq<Seq<i64>>|
            #[trigger] feed_occurrences(components@, occs, now as int, cutoff as int)
                && event_views(r@) == spec_calendar_events(config.name@, components@, occs, now as int, cutoff as int),
        forall|i: int| 0 <= i < r@.len() ==> now <= (#[trigger] r@[i]).start < cutoff,
{
    let mut out: Vec<CalEvent> = Vec::new();
    let ghost mut occs: Seq<Seq<i64>> = Seq::empty();
    let mut i: usize = 0;
    while i < components.len()
        invariant
            i <= components@.len(),
            representable(now as int),
            representable(cutoff as int),
            forall|k: int| 0 <= k < components@.len() ==> (#[trigger] components@[k]).wf(),
            occs.len() == i,
            forall|k: int| 0 <= k < i ==> #[trigger] component_occurrences(components@[k], occs[k], now as int, cutoff as int),
            event_views(out@) == spec_calendar_events(
                config.name@,
                components@.subrange(0, i as int),
                occs,
                now as int,
                cutoff as int,
            ),
            forall|k: int| 0 <= k < out@.len() ==> now <= (#[trigger] out@[k]).start < cutoff,
        decreases components.len() - i,
    {
        let ghost before = out@;
        let ghost mut occ: Seq<i64> = Seq::empty();
        match &components[i] {
            IcalComponent::Other => {},
            IcalComponent::Event(e) => match &e.start {
                None => {},
                Some(start_raw) => {
                    let (start_utc, all_day) = date_perhaps_time_to_utc(start_raw);
                    let duration: Option<i64> = match &e.end {
                        Some(t) => {
                            let (end_utc, _) = date_perhaps_time_to_utc(t);
                            Some(end_utc - start_utc)
                        },
                        None => None,
                    };
                    let ghost gdur: Option<int> = match duration {
                        Some(d) => Some(d as int),
                        None => None,
                    };
                    match &e.rrule {
                        Some(text) => {
                            let dates = expand_recurring(start_raw, text.as_str(), now, cutoff);
                            let ghost mk = |s: i64| event_view_at(config.name@, *e, s as int, all_day, gdur);
                            proof {
                                occ = dates@;
                            }
                            let mut j: usize = 0;
                            while j < dates.len()
                                invariant
                                    j <= dates@.len(),
                                    representable(now as int),
                                    representable(cutoff as int),
                                    representable(start_utc as int),
                                    duration matches Some(d) ==> -20000000000000 <= d <= 20000000000000,
                                    forall|k: int| 0 <= k < dates@.len() ==> now <= #[trigger] dates@[k] < cutoff,
                                    event_views(out@) == event_views(before) + dates@.subrange(0, j as int).map_values(mk),
                                    forall|k: int| 0 <= k < out@.len() ==> now <= (#[trigger] out@[k]).start < cutoff,
                                decreases dates.len() - j,
                            {
                                let s = dates[j];
                                assert(now <= dates@[j as int] < cutoff);
                                let ev = make_event(config, e, s, all_day, duration);
                                assert(ev@ == mk(s));
                                let ghost prev_out = out@;
                                out.push(ev);
                                assert(event_views(out@) =~= event_views(prev_out).push(mk(s)));
                                j = j + 1;
                                assert(dates@.subrange(0, j as int).map_values(mk) =~= dates@.subrange(0, j - 1).map_values(mk).push(mk(s)));
                                assert(event_views(out@) =~= event_views(before) + dates@.subrange(0, j as int).map_values(mk));
                            }
                            assert(dates@.subrange(0, dates@.len() as int) =~= dates@);
                        },
                        None => {
                            if start_utc >= now && start_utc < cutoff {
                                let ev = make_event(config, e, start_utc, all_day, duration);
                                out.push(ev);
                            }
                        },
                    }
                },
            },
        }
        proof {
            let pre = components@.subrange(0, i as int);
            let post = components@.subrange(0, i + 1);
            let added = component_event_views(config.name@, components@[i as int], occ, now as int, cutoff as int);
            assert(post.drop_last() =~= pre);
            assert(post.last() == components@[i as int]);
            assert(occs.push(occ).drop_last() =~= occs);
            assert(event_views(out@) =~= event_views(before) + added);
            assert(component_occurrences(components@[i as int], occ, now as int, cutoff as int));
            occs = occs.push(occ);
            assert(event_views(out@) == spec_calendar_events(config.name@, post, occs, now as int, cutoff as int));
        }
        i = i + 1;
    }
    assert(components@.subrange(0, components@.len() as int) =~= components@);
    assert(feed_occurrences(components@, occs, now as int, cutoff as int));
    out
}

/// The events of calendar `config` in the iCalendar text `body` that lie
/// from `now` (included) to `cutoff` (excluded), or the parser's error.
pub fn calendar_events(config: &CalendarConfig, body: &str, now: i64, cutoff: i64) -> (r: Result<Vec<CalEvent>, Error>)
    requires
        representable(now as int),
        representable(cutoff as int),
    ensures
        ical_parse(body@) matches Err(m) ==> (r matches Err(Error::Parse(e)) && e@ == m),
        ical_parse(body@) matches Ok(comps) ==> (r matches Ok(events)
            && (exists|occs: Seq<Seq<i64>>|
                #[trigger] feed_occurrences(comps, occs, now as int, cutoff as int)
                    && event_views(events@) == spec_calendar_events(config.name@, comps, occs, now as int, cutoff as int))
            && forall|i: int| 0 <= i < events@.len() ==> now <= (#[trigger] events@[i]).start < cutoff),
{
    match parse_calendar(body) {
        Err(m) => Err(Error::Parse(m)),
        Ok(cal) => {
            let comps = read_components(&cal);
            Ok(events_from_components(config, &comps, now, cutoff))
        },
    }
}

// ── Upcoming events of all feeds ──────────────────────────────────────────────

/// The instant `days` whole days after `now`: the end of the listing window.
pub open spec fn window_end(now: int, days: u32) -> int {
    now + days * 86400
}

/// The end of the listing window of `days` days from `now`, or `None` when
/// no calendar is configured.
pub open spec fn spec_plan_upcoming(calendars: Seq<CalendarConfig>, now: int, days: u32) -> Option<int> {
    if calendars.len() == 0 {
        None
    } else {
        Some(window_end(now, days))
    }
}

/// Checks that calendars are configured and gives the end of the window of
/// `days` days starting at `now`.
pub fn plan_upcoming(calendars: &[CalendarConfig], now: i64, days: u32) -> (r: Result<i64, Error>)
    requires
        calendars@.len() > 0 ==> representable(window_end(now as int, days)),
        representable(now as int),
    ensures
        spec_plan_upcoming(calendars@, now as int, days) is None ==> r matches Err(Error::NoCalendars),
        spec_plan_upcoming(calendars@, now as int, days) matches Some(end) ==> (r matches Ok(cutoff) && cutoff == end),
{
    if calendars.len() == 0 {
        return Err(Error::NoCalendars);
    }
    Ok(now + (days as i64) * 86400)
}

/// The events of the feeds that could be read, one list per configured
/// calendar in order, joined in that order; unreadable feeds (`None`) add nothing.
pub open spec fn joined_events(fetched: Seq<Option<Vec<CalEvent>>>) -> Seq<CalEvent>
    decreases fetched.len(),
{
    if fetched.len() == 0 {
        Seq::empty()
    } else {
        (match fetched[0] {
            Some(v) => v@,
            None => Seq::<CalEvent>::empty(),
        }) + joined_events(fetched.drop_first())
    }
}

/// The events of `s` that start at the instant `k`, in their order in `s`.
pub open spec fn starting_at(s: Seq<CalEvent>, k: i64) -> Seq<CalEvent>
    decreases s.len(),
{
    if s.len() == 0 {
        Seq::empty()
    } else {
        starting_at(s.drop_last(), k) + (if s.last().start == k {
            seq![s.last()]
        } else {
            Seq::<CalEvent>::empty()
        })
    }
}

/// Events are in order of their start.
pub open spec fn sorted_by_start(s: Seq<CalEvent>) -> bool {
    forall|i: int, j: int| 0 <= i < j < s.len() ==> s[i].start <= s[j].start
}

/// `r` holds the events of `s` ordered by start, and events with the same
/// start keep their order in `s`: what a stable sort by start gives.
pub open spec fn stably_sorted_from(r: Seq<CalEvent>, s: Seq<CalEvent>) -> bool {
    &&& sorted_by_start(r)
    &&& forall|k: i64| #[trigger] starting_at(r, k) == starting_at(s, k)
}

proof fn lemma_starting_at_concat(a: Seq<CalEvent>, b: Seq<CalEvent>, k: i64)
    ensures
        starting_at(a + b, k) == starting_at(a, k) + starting_at(b, k),
    decreases b.len(),
{
    if b.len() == 0 {
        assert(a + b =~= a);
        assert(starting_at(a, k) + starting_at(b, k) =~= starting_at(a, k));
    } else {
        lemma_starting_at_concat(a, b.drop_last(), k);
        assert((a + b).drop_last() =~= a + b.drop_last());
        assert((a + b).last() == b.last());
        assert(starting_at(a + b, k) =~= starting_at(a, k) + starting_at(b, k));
    }
}

proof fn lemma_starting_at_none(b: Seq<CalEvent>, k: i64)
    requires
        forall|i: int| 0 <= i < b.len() ==> (#[trigger] b[i]).start != k,
    ensures
        starting_at(b, k) == Seq::<CalEvent>::empty(),
    decreases b.len(),
{
    if b.len() > 0 {
        lemma_starting_at_none(b.drop_last(), k);
    }
}

/// Inserting `x` after every event that starts no later than it keeps the
/// order by start and adds `x` last among the events with its start.
proof fn lemma_insert_keeps_stable(out: Seq<CalEvent>, pos: int, x: CalEvent)
    requires
        sorted_by_start(out),
        0 <= pos <= out.len(),
        forall|j: int| 0 <= j < pos ==> (#[trigger] out[j]).start <= x.start,
        forall|j: int| pos <= j < out.len() ==> (#[trigger] out[j]).start > x.start,
    ensures
        sorted_by_start(out.insert(pos, x)),
        forall|k: i64| #[trigger] starting_at(out.insert(pos, x), k) == starting_at(out, k) + (if x.start == k {
            seq![x]
        } else {
            Seq::<CalEvent>::empty()
        }),
{
    let pre = out.subrange(0, pos);
    let post = out.subrange(pos, out.len() as int);
    let n = out.insert(pos, x);
    assert(n =~= pre + seq![x] + post);
    assert(out =~= pre + post);
    assert forall|k: i64| #[trigger] starting_at(n, k) == starting_at(out, k) + (if x.start == k {
        seq![x]
    } else {
        Seq::<CalEvent>::empty()
    }) by {
        lemma_starting_at_concat(pre + seq![x], post, k);
        lemma_starting_at_concat(pre, seq![x], k);
        lemma_starting_at_concat(pre, post, k);
        assert(seq![x].drop_last() =~= Seq::<CalEvent>::empty());
        assert(starting_at(Seq::<CalEvent>::empty(), k) == Seq::<CalEvent>::empty());
        assert(starting_at(seq![x], k) =~= (if x.start == k {
            seq![x]
        } else {
            Seq::<CalEvent>::empty()
        }));
        if x.start == k {
            assert forall|i: int| 0 <= i < post.len() implies (#[trigger] post[i]).start != k by {
                assert(post[i] == out[pos + i]);
            }
            lemma_starting_at_none(post, k);
            assert(starting_at(n, k) =~= starting_at(out, k) + seq![x]);
        } else {
            assert(starting_at(n, k) =~= starting_at(out, k));
        }
    }
}

/// Orders `events` by start; events with the same start keep their order.
pub fn sort_events_by_start(events: Vec<CalEvent>) -> (r: Vec<CalEvent>)
    ensures
        stably_sorted_from(r@, events@),
{
    let ghost orig = events@;
    let total = events.len();
    let mut rest = events;
    let mut out: Vec<CalEvent> = Vec::new();
    let mut taken: usize = 0;
    while rest.len() > 0
        invariant
            taken + rest@.len() == orig.len(),
            orig.len() == total,
            rest@ == orig.subrange(taken as int, orig.len() as int),
            sorted_by_start(out@),
            forall|k: i64| #[trigger] starting_at(out@, k) == starting_at(orig.subrange(0, taken as int), k),
        decreases rest.len(),
    {
        let x = rest.remove(0);
        let mut pos: usize = 0;
        while pos < out.len() && out[pos].start <= x.start
            invariant
                pos <= out@.len(),
                forall|j: int| 0 <= j < pos ==> (#[trigger] out@[j]).start <= x.start,
            decreases out.len() - pos,
        {
            pos = pos + 1;
        }
        proof {
            assert forall|j: int| pos <= j < out@.len() implies (#[trigger] out@[j]).start > x.start by {
                assert(out@[pos as int].start > x.start);
                assert(out@[pos as int].start <= out@[j].start);
            }
            lemma_insert_keeps_stable(out@, pos as int, x);
            let prefix = orig.subrange(0, taken as int);
            let next = orig.subrange(0, taken + 1);
            assert(next.drop_last() =~= prefix);
            assert(next.last() == x);
        }
        out.insert(pos, x);
        taken = taken + 1;
        assert(rest@ =~= orig.subrange(taken as int, orig.len() as int));
    }
    assert(orig.subrange(0, taken as int) =~= orig);
    out
}

/// Joins the events of the feeds that could be read, in the order of the
/// configured calendars, and orders them by start; events with the same
/// start keep that order.
pub fn merge_upcoming(fetched: Vec<Option<Vec<CalEvent>>>) -> (r: Vec<CalEvent>)
    ensures
        stably_sorted_from(r@, joined_events(fetched@)),
{
    let ghost orig = fetched@;
    let mut rest = fetched;
    let mut all: Vec<CalEvent> = Vec::new();
    while rest.len() > 0
        invariant
            joined_events(orig) == all@ + joined_events(rest@),
        decreases rest.len(),
    {
        let ghost before = rest@;
        let item = rest.remove(0);
        assert(rest@ =~= before.drop_first());
        match item {
            Some(mut evs) => {
                let ghost added = evs@;
                all.append(&mut evs);
                assert(all@ + joined_events(rest@) =~= (all@.subrange(0, all@.len() - added.len())) + (added + joined_events(rest@)));
            },
            None => {
                assert(joined_events(before) =~= joined_events(rest@));
            },
        }
    }
    assert(all@ =~= joined_events(orig));
    sort_events_by_start(all)
}

proof fn lemma_starting_at_member(s: Seq<CalEvent>, k: i64, y: CalEvent)
    requires
        starting_at(s, k).contains(y),
    ensures
        s.contains(y),
        y.start == k,
    decreases s.len(),
{
    if s.len() > 0 {
        let rest = starting_at(s.drop_last(), k);
        if rest.contains(y) {
            lemma_starting_at_member(s.drop_last(), k, y);
            let j = choose|j: int| 0 <= j < s.drop_last().len() && s.drop_last()[j] == y;
            assert(s[j] == y);
        } else {
            let t = if s.last().start == k {
                seq![s.last()]
            } else {
                Seq::<CalEvent>::empty()
            };
            let w = choose|j: int| 0 <= j < starting_at(s, k).len() && starting_at(s, k)[j] == y;
            assert(starting_at(s, k) == rest + t);
            if w < rest.len() {
                assert(rest[w] == y);
            } else {
                assert(t[w - rest.len()] == y);
                assert(s[s.len() - 1] == y);
            }
        }
    }
}

proof fn lemma_member_starting_at(s: Seq<CalEvent>, i: int)
    requires
        0 <= i < s.len(),
    ensures
        starting_at(s, s[i].start).contains(s[i]),
    decreases s.len(),
{
    let k = s[i].start;
    if i == s.len() - 1 {
        let rest = starting_at(s.drop_last(), k);
        assert(starting_at(s, k) == rest + seq![s[i]]);
        assert(starting_at(s, k)[rest.len() as int] == s[i]);
    } else {
        lemma_member_starting_at(s.drop_last(), i);
        assert(s.drop_last()[i] == s[i]);
        let rest = starting_at(s.drop_last(), k);
        let w = choose|j: int| 0 <= j < rest.len() && rest[j] == s[i];
        let t = if s.last().start == k {
            seq![s.last()]
        } else {
            Seq::<CalEvent>::empty()
        };
        assert(starting_at(s, k) == rest + t);
        assert(starting_at(s, k)[w] == s[i]);
    }
}

proof fn lemma_joined_member(fetched: Seq<Option<Vec<CalEvent>>>, y: CalEvent)
    requires
        joined_events(fetched).contains(y),
    ensures
        exists|c: int, j: int|
            0 <= c < fetched.len() && fetched[c] is Some && 0 <= j < fetched[c]->0@.len()
                && (#[trigger] fetched[c]->0@[j]) == y,
    decreases fetched.len(),
{
    let head = match fetched[0] {
        Some(v) => v@,
        None => Seq::<CalEvent>::empty(),
    };
    let tail = joined_events(fetched.drop_first());
    assert(joined_events(fetched) == head + tail);
    let w = choose|j: int| 0 <= j < joined_events(fetched).len() && joined_events(fetched)[j] == y;
    if w < head.len() {
        assert(fetched[0] is Some && fetched[0]->0@[w] == y);
    } else {
        assert(tail[w - head.len()] == y);
        lemma_joined_member(fetched.drop_first(), y);
        let (c, j) = choose|c: int, j: int|
            0 <= c < fetched.drop_first().len() && fetched.drop_first()[c] is Some && 0
                <= j < fetched.drop_first()[c]->0@.len() && (#[trigger] fetched.drop_first()[c]->0@[j]) == y;
        assert(fetched[c + 1] == fetched.drop_first()[c]);
    }
}

/// Every event of a merged listing is one of the events fetched from the
/// calendars.
pub proof fn lemma_merged_event_was_fetched(r: Seq<CalEvent>, fetched: Seq<Option<Vec<CalEvent>>>, i: int)
    requires
        stably_sorted_from(r, joined_events(fetched)),
        0 <= i < r.len(),
    ensures
        exists|c: int, j: int|
            0 <= c < fetched.len() && fetched[c] is Some && 0 <= j < fetched[c]->0@.len()
                && (#[trigger] fetched[c]->0@[j]) == r[i],
{
    let k = r[i].start;
    lemma_member_starting_at(r, i);
    assert(starting_at(r, k) == starting_at(joined_events(fetched), k));
    lemma_starting_at_member(joined_events(fetched), k, r[i]);
    lemma_joined_member(fetched, r[i]);
}

/// The listing stays within the requested window: when every fetched event
/// starts from `now` (included) to `cutoff` (excluded), so does every event of the merged,
/// sorted listing.
pub proof fn lemma_listing_within_window(
    r: Seq<CalEvent>,
    fetched: Seq<Option<Vec<CalEvent>>>,
    now: int,
    cutoff: int,
)
    requires
        stably_sorted_from(r, joined_events(fetched)),
        forall|c: int, j: int|
            0 <= c < fetched.len() && fetched[c] is Some && 0 <= j < fetched[c]->0@.len()
                ==> now <= (#[trigger] fetched[c]->0@[j]).start < cutoff,
    ensures
        forall|i: int| 0 <= i < r.len() ==> now <= (#[trigger] r[i]).start < cutoff,
{
    assert forall|i: int| 0 <= i < r.len() implies now <= (#[trigger] r[i]).start < cutoff by {
        lemma_merged_event_was_fetched(r, fetched, i);
    }
}

/// The event `v` is one that the component `c` of calendar `name` stands
/// for: `c` is an event with a start, `v` is listed under `name` with the
/// event's title, it is a whole-day event exactly when the event's `DTSTART`
/// is a date, and a one-off event starts at the UTC instant of its `DTSTART`.
pub open spec fn made_from(v: CalEventView, name: Seq<char>, c: IcalComponent) -> bool {
    &&& c matches IcalComponent::Event(e)
    &&& e.start matches Some(s)
    &&& v.calendar == name
    &&& v.summary == summary_text(e.summary)
    &&& v.all_day == (s is Date)
    &&& e.rrule is None ==> v.start == spec_date_perhaps_time_to_utc(s).0
}

proof fn lemma_component_events_made_from(name: Seq<char>, c: IcalComponent, occ: Seq<i64>, now: int, cutoff: int, k: int)
    requires
        0 <= k < component_event_views(name, c, occ, now, cutoff).len(),
    ensures
        made_from(component_event_views(name, c, occ, now, cutoff)[k], name, c),
{
}

/// Every event listed for a feed comes from one of its events that has a
/// start: under the calendar's name, with that event's title, whole-day
/// exactly when its `DTSTART` is a date (for one-off and recurring events
/// alike), and, when it does not recur, at its start.
pub proof fn lemma_feed_events_made_from(
    name: Seq<char>,
    comps: Seq<IcalComponent>,
    occs: Seq<Seq<i64>>,
    now: int,
    cutoff: int,
    k: int,
)
    requires
        0 <= k < spec_calendar_events(name, comps, occs, now, cutoff).len(),
    ensures
        exists|i: int|
            0 <= i < comps.len() && #[trigger] made_from(
                spec_calendar_events(name, comps, occs, now, cutoff)[k],
                name,
                comps[i],
            ),
    decreases comps.len(),
{
    let all = spec_calendar_events(name, comps, occs, now, cutoff);
    let pre = spec_calendar_events(name, comps.drop_last(), occs.drop_last(), now, cutoff);
    let last = component_event_views(name, comps.last(), occs.last(), now, cutoff);
    assert(all == pre + last);
    if k < pre.len() {
        lemma_feed_events_made_from(name, comps.drop_last(), occs.drop_last(), now, cutoff, k);
        let i = choose|i: int|
            0 <= i < comps.drop_last().len() && #[trigger] made_from(pre[k], name, comps.drop_last()[i]);
        assert(comps.drop_last()[i] == comps[i]);
        assert(all[k] == pre[k]);
        assert(made_from(all[k], name, comps[i]));
    } else {
        lemma_component_events_made_from(name, comps.last(), occs.last(), now, cutoff, k - pre.len());
        assert(all[k] == last[k - pre.len()]);
        assert(made_from(all[k], name, comps[comps.len() - 1]));
    }
}

/// The block that `rrule` expands for an event is the event's own `DTSTART`
/// line, as [`dtstart_ical_line`] writes it, followed by the rule: a zoned
/// start keeps its `TZID` and its wall-clock time, a UTC or floating start
/// its time with `Z`, a whole day its date.
pub proof fn lemma_recurrence_block_keeps_start(start: DatePerhapsTime, rrule_text: Seq<char>)
    ensures
        recurrence_block(start, rrule_text) == spec_dtstart_ical_line(start) + "\nRRULE:"@ + rrule_text,
        start matches DatePerhapsTime::DateTime(CalendarDateTime::WithTimezone { date_time, tzid })
            ==> recurrence_block(start, rrule_text) == "DTSTART;TZID="@ + tzid@ + ":"@
                + chrono_format_utc(date_time as int, "%Y%m%dT%H%M%S"@) + "\nRRULE:"@ + rrule_text,
        start matches DatePerhapsTime::DateTime(CalendarDateTime::Utc(t))
            ==> recurrence_block(start, rrule_text) == "DTSTART:"@
                + chrono_format_utc(t as int, "%Y%m%dT%H%M%S"@) + "Z"@ + "\nRRULE:"@ + rrule_text,
        start matches DatePerhapsTime::Date(d) ==> recurrence_block(start, rrule_text)
            == "DTSTART;VALUE=DATE:"@ + chrono_format_utc(d * 86400, "%Y%m%d"@) + "\nRRULE:"@
            + rrule_text,
{
}

} // verus!
