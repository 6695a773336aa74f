//! Reading iCalendar data with the `icalendar` crate: what a feed holds,
//! component by component, as plain values of this library.

use vstd::prelude::*;
use icalendar::Component;
use icalendar::EventLike;
use icalendar::CalendarComponent as IcalKind;
use icalendar::CalendarDateTime as IcalDateTime;
use icalendar::DatePerhapsTime as IcalTime;
use crate::gcal::gcal_client::{CalendarDateTime, DatePerhapsTime};

verus! {

/// A parsed iCalendar document.
#[verifier::external_type_specification]
#[verifier::external_body]
pub struct ExCalendar(icalendar::Calendar);

/// A component of a parsed iCalendar document; declared because the
/// document dereferences to a slice of them.
#[verifier::external_type_specification]
#[verifier::external_body]
pub struct ExCalendarComponent(icalendar::CalendarComponent);

/// What the calendar logic reads of a `VEVENT` component.
#[derive(Debug)]
pub struct IcalEvent {
    /// The `SUMMARY` property.
    pub summary: Option<String>,
    /// The `LOCATION` property.
    pub location: Option<String>,
    /// The `DTSTART` property.
    pub start: Option<DatePerhapsTime>,
    /// The `DTEND` property.
    pub end: Option<DatePerhapsTime>,
    /// The `RRULE` property, unparsed.
    pub rrule: Option<String>,
}

/// A component of an iCalendar document: an event, or anything else
/// (to-do items, venues, time zones) that the calendar logic skips.
#[derive(Debug)]
pub enum IcalComponent {
    Event(IcalEvent),
    Other,
}

impl IcalEvent {
    /// The event's times are instants and days the calendar library represents.
    pub open spec fn wf(&self) -> bool {
        &&& (self.start matches Some(t) ==> t.wf())
        &&& (self.end matches Some(t) ==> t.wf())
    }
}

impl IcalComponent {
    pub open spec fn wf(&self) -> bool {
        self matches IcalComponent::Event(e) ==> e.wf()
    }
}

/// What `icalendar` parses from the text `body`: the document's components
/// in order, or the parser's error message.
pub uninterp spec fn ical_parse(body: Seq<char>) -> Result<Seq<IcalComponent>, Seq<char>>;

/// The components a parsed document holds, in order.
pub uninterp spec fn calendar_components(cal: icalendar::Calendar) -> Seq<IcalComponent>;

/// Parses iCalendar text.
///
/// Trusted: wraps `<icalendar::Calendar as FromStr>::from_str`; the contract
/// claims that the outcome depends on the text alone (`ical_parse`), and that
/// the components of a parsed document are the ones `ical_parse` names.
#[verifier::external_body]
pub(crate) fn parse_calendar(body: &str) -> (r: Result<icalendar::Calendar, String>)
    ensures
        r matches Ok(cal) ==> (ical_parse(body@) is Ok && ical_parse(body@)->Ok_0 == calendar_components(cal)),
        r matches Err(m) ==> (ical_parse(body@) is Err && ical_parse(body@)->Err_0 == m@),
{
    body.parse::<icalendar::Calendar>()
}

/// The number of components of `cal`.
///
/// Trusted: reads the length of `icalendar::Calendar::components`.
#[verifier::external_body]
pub(crate) fn component_count(cal: &icalendar::Calendar) -> (r: usize)
    ensures
        r == calendar_components(*cal).len(),
{
    cal.components.len()
}

/// Whether component `i` of `cal` is an event.
///
/// Trusted: tells the `Event` variant of `icalendar::CalendarComponent` apart
/// from the others.
#[verifier::external_body]
pub(crate) fn component_is_event(cal: &icalendar::Calendar, i: usize) -> (r: bool)
    requires
        i < calendar_components(*cal).len(),
    ensures
        r == (calendar_components(*cal)[i as int] is Event),
{
    matches!(cal.components[i], IcalKind::Event(_))
}

/// The `SUMMARY` of event `i` of `cal`.
///
/// Trusted: wraps `icalendar::EventLike::get_summary`; the contract claims the
/// value is the one the document holds.
#[verifier::external_body]
pub(crate) fn event_summary(cal: &icalendar::Calendar, i: usize) -> (r: Option<String>)
    requires
        i < calendar_components(*cal).len(),
        calendar_components(*cal)[i as int] is Event,
    ensures
        r == calendar_components(*cal)[i as int]->Event_0.summary,
{
    match &cal.components[i] {
        IcalKind::Event(e) => e.get_summary().map(str::to_string),
        _ => None,
    }
}

/// The `LOCATION` of event `i` of `cal`.
///
/// Trusted: wraps `icalendar::Component::get_location`; the contract claims the
/// value is the one the document holds.
#[verifier::external_body]
pub(crate) fn event_location(cal: &icalendar::Calendar, i: usize) -> (r: Option<String>)
    requires
        i < calendar_components(*cal).len(),
        calendar_components(*cal)[i as int] is Event,
    ensures
        r == calendar_components(*cal)[i as int]->Event_0.location,
{
    match &cal.components[i] {
        IcalKind::Event(e) => e.get_location().map(str::to_string),
        _ => None,
    }
}

/// The `RRULE` of event `i` of `cal`, unparsed.
///
/// Trusted: wraps `icalendar::Component::property_value`; the contract claims
/// the value is the one the document holds.
#[verifier::external_body]
pub(crate) fn event_rrule(cal: &icalendar::Calendar, i: usize) -> (r: Option<String>)
    requires
        i < calendar_components(*cal).len(),
        calendar_components(*cal)[i as int] is Event,
    ensures
        r == calendar_components(*cal)[i as int]->Event_0.rrule,
{
    match &cal.components[i] {
        IcalKind::Event(e) => e.property_value("RRULE").map(str::to_string),
        _ => None,
    }
}

/// The `DTSTART` of event `i` of `cal`.
///
/// Trusted: wraps `icalendar::Component::get_start` and moves the date or
/// time into this library's mirror of `DatePerhapsTime` (instants as
/// seconds, dates as days since 1970-01-01, both from chrono); the contract
/// claims the value is the one the document holds and, as chrono's types
/// guarantee, that it lies in chrono's range.
#[verifier::external_body]
pub(crate) fn event_start(cal: &icalendar::Calendar, i: usize) -> (r: Option<DatePerhapsTime>)
    requires
        i < calendar_components(*cal).len(),
        calendar_components(*cal)[i as int] is Event,
    ensures
        r == calendar_components(*cal)[i as int]->Event_0.start,
        r matches Some(t) ==> t.wf(),
{
    let IcalKind::Event(e) = &cal.components[i] else { return None };
    Some(match e.get_start()? {
        IcalTime::Date(d) => DatePerhapsTime::Date(d.to_epoch_days() as i64),
        IcalTime::DateTime(IcalDateTime::Utc(t)) => DatePerhapsTime::DateTime(CalendarDateTime::Utc(t.timestamp())),
        IcalTime::DateTime(IcalDateTime::Floating(n)) => DatePerhapsTime::DateTime(CalendarDateTime::Floating(n.and_utc().timestamp())),
        IcalTime::DateTime(IcalDateTime::WithTimezone { date_time, tzid }) =>
            DatePerhapsTime::DateTime(CalendarDateTime::WithTimezone { date_time: date_time.and_utc().timestamp(), tzid }),
    })
}

/// The `DTEND` of event `i` of `cal`.
///
/// Trusted: wraps `icalendar::Component::get_end`, converted as in
/// [`event_start`]; the contract claims the same of it.
#[verifier::external_body]
pub(crate) fn event_end(cal: &icalendar::Calendar, i: usize) -> (r: Option<DatePerhapsTime>)
    requires
        i < calendar_components(*cal).len(),
        calendar_components(*cal)[i as int] is Event,
    ensures
        r == calendar_components(*cal)[i as int]->Event_0.end,
        r matches Some(t) ==> t.wf(),
{
    let IcalKind::Event(e) = &cal.components[i] else { return None };
    Some(match e.get_end()? {
        IcalTime::Date(d) => DatePerhapsTime::Date(d.to_epoch_days() as i64),
        IcalTime::DateTime(IcalDateTime::Utc(t)) => DatePerhapsTime::DateTime(CalendarDateTime::Utc(t.timestamp())),
        IcalTime::DateTime(IcalDateTime::Floating(n)) => DatePerhapsTime::DateTime(CalendarDateTime::Floating(n.and_utc().timestamp())),
        IcalTime::DateTime(IcalDateTime::WithTimezone { date_time, tzid }) =>
            DatePerhapsTime::DateTime(CalendarDateTime::WithTimezone { date_time: date_time.and_utc().timestamp(), tzid }),
    })
}

/// The components of `cal`, read into plain values.
pub fn read_components(cal: &icalendar::Calendar) -> (r: Vec<IcalComponent>)
    ensures
        r@ == calendar_components(*cal),
        forall|i: int| 0 <= i < r@.len() ==> (#[trigger] r@[i]).wf(),
{
    let n = component_count(cal);
    let mut out: Vec<IcalComponent> = Vec::new();
    let mut i: usize = 0;
    while i < n
        invariant
            n == calendar_components(*cal).len(),
            i <= n,
            out@ == calendar_components(*cal).subrange(0, i as int),
            forall|j: int| 0 <= j < out@.len() ==> (#[trigger] out@[j]).wf(),
        decreases n - i,
    {
        if component_is_event(cal, i) {
            let summary = event_summary(cal, i);
            let location = event_location(cal, i);
            let start = event_start(cal, i);
            let end = event_end(cal, i);
            let rrule = event_rrule(cal, i);
            let c = IcalComponent::Event(IcalEvent { summary, location, start, end, rrule });
            assert(c == calendar_components(*cal)[i as int]);
            out.push(c);
        } else {
            out.push(IcalComponent::Other);
        }
        i = i + 1;
        assert(out@ =~= calendar_components(*cal).subrange(0, i as int));
    }
    assert(calendar_components(*cal).subrange(0, n as int) =~= calendar_components(*cal));
    out
}

} // verus!
