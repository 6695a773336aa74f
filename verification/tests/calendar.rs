use chrono::{NaiveDate, TimeZone, Utc};
use mcp_servers::clock::{MAX_TIMESTAMP, MIN_TIMESTAMP};
use mcp_servers::gcal::error::Error;
use mcp_servers::gcal::gcal_client::{
    cal_datetime_to_utc, calendar_events, date_perhaps_time_to_utc, dtstart_ical_line,
    expand_recurring, merge_upcoming, naive_date_to_utc, plan_upcoming, sort_events_by_start,
    CalEvent, CalendarConfig, CalendarDateTime, ConfigOutcome, DatePerhapsTime,
};
use mcp_servers::gcal::gcal_server::{
    configured_calendars, effective_days, format_events, list_events_reply,
};

fn utc(y: i32, mo: u32, d: u32, h: u32, mi: u32, s: u32) -> i64 {
    Utc.with_ymd_and_hms(y, mo, d, h, mi, s).unwrap().timestamp()
}

fn day(y: i32, mo: u32, d: u32) -> i64 {
    (NaiveDate::from_ymd_opt(y, mo, d).unwrap() - NaiveDate::from_ymd_opt(1970, 1, 1).unwrap())
        .num_days()
}

fn wall_clock(y: i32, mo: u32, d: u32, h: u32, mi: u32, s: u32) -> i64 {
    NaiveDate::from_ymd_opt(y, mo, d)
        .unwrap()
        .and_hms_opt(h, mi, s)
        .unwrap()
        .and_utc()
        .timestamp()
}

fn make_event(calendar: &str, summary: &str, hour: u32, all_day: bool) -> CalEvent {
    CalEvent {
        calendar: calendar.to_string(),
        summary: summary.to_string(),
        start: utc(2024, 6, 3, hour, 0, 0),
        end: None,
        location: None,
        all_day,
    }
}

fn config(name: &str) -> CalendarConfig {
    CalendarConfig { name: name.to_string(), url: format!("https://example.com/{name}.ics") }
}

// ── gcal_client ───────────────────────────────────────────────────────────────

#[test]
fn naive_date_converts_to_midnight_utc() {
    let date = day(2024, 6, 1);
    let dt = naive_date_to_utc(date);
    assert_eq!(dt, utc(2024, 6, 1, 0, 0, 0));
}

#[test]
fn cal_datetime_with_timezone_converts_to_utc() {
    // 10:00 in Stockholm in summer (CEST, +02:00) is 08:00 UTC.
    let cdt = CalendarDateTime::WithTimezone {
        date_time: wall_clock(2024, 6, 15, 10, 0, 0),
        tzid: "Europe/Stockholm".to_string(),
    };
    let utc_instant = cal_datetime_to_utc(&cdt);
    assert_eq!(utc_instant, utc(2024, 6, 15, 8, 0, 0));
}

#[test]
fn cal_datetime_utc_passes_through() {
    let instant = utc(2024, 6, 15, 8, 0, 0);
    let cdt = CalendarDateTime::Utc(instant);
    assert_eq!(cal_datetime_to_utc(&cdt), instant);
}

#[test]
fn dtstart_line_utc() {
    let cdt = CalendarDateTime::Utc(utc(2024, 6, 15, 8, 0, 0));
    let line = dtstart_ical_line(&DatePerhapsTime::DateTime(cdt));
    assert_eq!(line, "DTSTART:20240615T080000Z");
}

#[test]
fn dtstart_line_with_timezone() {
    let cdt = CalendarDateTime::WithTimezone {
        date_time: wall_clock(2024, 6, 15, 10, 0, 0),
        tzid: "Europe/Stockholm".to_string(),
    };
    let line = dtstart_ical_line(&DatePerhapsTime::DateTime(cdt));
    assert_eq!(line, "DTSTART;TZID=Europe/Stockholm:20240615T100000");
}

#[test]
fn expand_weekly_rrule_returns_multiple_instances() {
    let start_utc = utc(2024, 6, 3, 9, 0, 0);
    let cdt = CalendarDateTime::Utc(start_utc);
    let dt = DatePerhapsTime::DateTime(cdt);

    let now = utc(2024, 6, 1, 0, 0, 0);
    let cutoff = utc(2024, 7, 1, 0, 0, 0);

    let instances = expand_recurring(&dt, "FREQ=WEEKLY;COUNT=4", now, cutoff);
    assert_eq!(instances.len(), 4);
    assert_eq!(instances[0], start_utc);
    assert_eq!(instances[1], utc(2024, 6, 10, 9, 0, 0));
}

#[test]
fn expand_invalid_rrule_returns_empty() {
    let cdt = CalendarDateTime::Utc(utc(2024, 6, 3, 9, 0, 0));
    let dt = DatePerhapsTime::DateTime(cdt);

    let now = Utc::now().timestamp();
    let cutoff = now + 30 * 86400;
    assert!(expand_recurring(&dt, "NONSENSE=YES", now, cutoff).is_empty());
}

// ── gcal_server ───────────────────────────────────────────────────────────────

#[test]
fn format_no_events() {
    let output = format_events(&[], 7);
    assert!(output.contains("No upcoming events"));
}

#[test]
fn format_single_event() {
    let events = vec![make_event("Work", "Team standup", 9, false)];
    let output = format_events(&events, 7);
    assert!(output.contains("Team standup"));
    assert!(output.contains("09:00 UTC"));
    assert!(output.contains("Monday"));
}

#[test]
fn format_all_day_event() {
    let events = vec![make_event("Personal", "Birthday", 0, true)];
    let output = format_events(&events, 7);
    assert!(output.contains("All day"));
    assert!(output.contains("Birthday"));
}

#[test]
fn format_multiple_calendars_shows_both_names() {
    let events = vec![
        make_event("Work", "Standup", 9, false),
        make_event("Personal", "Gym", 7, false),
    ];
    let output = format_events(&events, 7);
    assert!(output.contains("(Work)"), "missing (Work) in: {output}");
    assert!(
        output.contains("(Personal)"),
        "missing (Personal) in: {output}"
    );
}

#[test]
fn format_single_calendar_omits_calendar_name() {
    let events = vec![
        make_event("Work", "Standup", 9, false),
        make_event("Work", "Lunch", 12, false),
    ];
    let output = format_events(&events, 7);
    assert!(!output.contains("(Work)"), "shouldn't tag: {output}");
}

// ── Further behaviour ─────────────────────────────────────────────────────────

#[test]
fn listing_text_is_exact() {
    let mut late = make_event("Work", "Review", 15, false);
    late.location = Some("Room 4".to_string());
    let mut next_day = make_event("Home", "Dentist", 8, false);
    next_day.start = utc(2024, 6, 4, 8, 30, 0);
    let events = vec![make_event("Work", "Standup", 9, false), late, next_day];
    assert_eq!(
        format_events(&events, 7),
        "Monday, June 3\n  09:00 UTC  Standup  (Work)\n  15:00 UTC  Review  [Room 4]  (Work)\n\
         \nTuesday, June 4\n  08:30 UTC  Dentist  (Home)"
    );
    assert_eq!(format_events(&[], 3), "No upcoming events in the next 3 day(s).");
}

#[test]
fn date_values_are_whole_days() {
    assert_eq!(date_perhaps_time_to_utc(&DatePerhapsTime::Date(day(2024, 6, 1))), (utc(2024, 6, 1, 0, 0, 0), true));
    let floating = DatePerhapsTime::DateTime(CalendarDateTime::Floating(wall_clock(2024, 6, 1, 12, 0, 0)));
    assert_eq!(date_perhaps_time_to_utc(&floating), (utc(2024, 6, 1, 12, 0, 0), false));
    assert_eq!(
        dtstart_ical_line(&DatePerhapsTime::Date(day(2024, 6, 1))),
        "DTSTART;VALUE=DATE:20240601"
    );
    assert_eq!(dtstart_ical_line(&floating), "DTSTART:20240601T120000Z");
}

#[test]
fn unknown_zone_reads_as_utc() {
    let cdt = CalendarDateTime::WithTimezone {
        date_time: wall_clock(2024, 6, 15, 10, 0, 0),
        tzid: "Nowhere/Special".to_string(),
    };
    assert_eq!(cal_datetime_to_utc(&cdt), utc(2024, 6, 15, 10, 0, 0));
}

#[test]
fn recurring_instances_stay_in_window() {
    let dt = DatePerhapsTime::DateTime(CalendarDateTime::Utc(utc(2024, 1, 1, 9, 0, 0)));
    let now = utc(2024, 3, 1, 0, 0, 0);
    let cutoff = utc(2024, 3, 8, 0, 0, 0);
    let instances = expand_recurring(&dt, "FREQ=DAILY", now, cutoff);
    assert_eq!(instances.len(), 7);
    assert!(instances.iter().all(|t| now <= *t && *t < cutoff));
    assert!(instances.windows(2).all(|w| w[0] < w[1]));
    assert_eq!(instances[0], utc(2024, 3, 1, 9, 0, 0));
}

const FEED: &str = "BEGIN:VCALENDAR\r\n\
VERSION:2.0\r\n\
PRODID:-//test//EN\r\n\
BEGIN:VEVENT\r\n\
UID:a\r\n\
SUMMARY:Planning\r\n\
LOCATION:Room 1\r\n\
DTSTART:20240603T090000Z\r\n\
DTEND:20240603T100000Z\r\n\
END:VEVENT\r\n\
BEGIN:VEVENT\r\n\
UID:b\r\n\
DTSTART:20240520T090000Z\r\n\
END:VEVENT\r\n\
BEGIN:VEVENT\r\n\
UID:c\r\n\
SUMMARY:Weekly\r\n\
DTSTART:20240527T070000Z\r\n\
DTEND:20240527T073000Z\r\n\
RRULE:FREQ=WEEKLY;COUNT=3\r\n\
END:VEVENT\r\n\
BEGIN:VTODO\r\n\
UID:d\r\n\
SUMMARY:Chore\r\n\
END:VTODO\r\n\
END:VCALENDAR\r\n";

#[test]
fn feed_events_in_window() {
    let now = utc(2024, 6, 1, 0, 0, 0);
    let cutoff = utc(2024, 6, 8, 0, 0, 0);
    let events = calendar_events(&config("Work"), FEED, now, cutoff).unwrap();
    let titles: Vec<&str> = events.iter().map(|e| e.summary.as_str()).collect();
    assert_eq!(titles, vec!["Planning", "Weekly"]);
    assert_eq!(events[0].location.as_deref(), Some("Room 1"));
    assert_eq!(events[0].end, Some(utc(2024, 6, 3, 10, 0, 0)));
    assert_eq!(events[1].start, utc(2024, 6, 3, 7, 0, 0));
    assert_eq!(events[1].end, Some(utc(2024, 6, 3, 7, 30, 0)));
    assert!(events.iter().all(|e| e.calendar == "Work" && !e.all_day));
}

#[test]
fn untitled_events_are_named() {
    let now = utc(2024, 5, 1, 0, 0, 0);
    let cutoff = utc(2024, 5, 31, 0, 0, 0);
    let events = calendar_events(&config("Work"), FEED, now, cutoff).unwrap();
    assert!(events.iter().any(|e| e.summary == "(no title)" && e.start == utc(2024, 5, 20, 9, 0, 0)));
}

#[test]
fn unparsable_feed_is_an_error() {
    let err = calendar_events(&config("Work"), "this is not a calendar", 0, 86400);
    match err {
        Err(Error::Parse(m)) => assert!(!m.is_empty()),
        other => panic!("expected a parse error, got {other:?}"),
    }
}

#[test]
fn merged_events_are_sorted_and_stable() {
    let a = vec![make_event("A", "a9", 9, false), make_event("A", "a7", 7, false)];
    let b = vec![make_event("B", "b9", 9, false), make_event("B", "b8", 8, false)];
    let merged = merge_upcoming(vec![Some(a), None, Some(b)]);
    let titles: Vec<&str> = merged.iter().map(|e| e.summary.as_str()).collect();
    assert_eq!(titles, vec!["a7", "b8", "a9", "b9"]);
    assert!(sort_events_by_start(vec![]).is_empty());
}

#[test]
fn planning_needs_calendars() {
    assert!(matches!(plan_upcoming(&[], 0, 7), Err(Error::NoCalendars)));
    assert_eq!(plan_upcoming(&[config("Work")], 1000, 2).unwrap(), 1000 + 2 * 86400);
}

#[test]
fn days_and_configuration() {
    assert_eq!(effective_days(None), 7);
    assert_eq!(effective_days(Some(30)), 30);
    assert_eq!(effective_days(Some(365)), 90);
    assert_eq!(configured_calendars(Ok(ConfigOutcome::Loaded(vec![config("Work")]))).len(), 1);
    assert!(configured_calendars(Ok(ConfigOutcome::Missing)).is_empty());
    assert!(configured_calendars(Err("bad toml".to_string())).is_empty());
}

#[test]
fn listing_replies() {
    assert_eq!(
        list_events_reply(&Err(Error::NoCalendars), 7),
        "Error fetching calendar events: no calendars configured — add entries to ~/.config/gcal-mcp/config.toml"
    );
    assert_eq!(
        list_events_reply(&Err(Error::Http("timeout".to_string())), 7),
        "Error fetching calendar events: HTTP request failed: timeout"
    );
    assert_eq!(
        list_events_reply(&Err(Error::Parse("bad".to_string())), 7),
        "Error fetching calendar events: iCal parse error: bad"
    );
    assert_eq!(list_events_reply(&Ok(vec![]), 1), "No upcoming events in the next 1 day(s).");
}

#[test]
fn listing_stays_in_window() {
    let now = utc(2024, 6, 1, 0, 0, 0);
    let cutoff = plan_upcoming(&[config("Work"), config("Home")], now, 7).unwrap();
    let work = calendar_events(&config("Work"), FEED, now, cutoff).unwrap();
    let home = calendar_events(&config("Home"), FEED, now, cutoff).unwrap();
    let merged = merge_upcoming(vec![Some(work), None, Some(home)]);
    assert_eq!(merged.len(), 4);
    assert!(merged.iter().all(|e| now <= e.start && e.start < cutoff));
    assert!(merged.windows(2).all(|w| w[0].start <= w[1].start));
    let order: Vec<(&str, &str)> =
        merged.iter().map(|e| (e.calendar.as_str(), e.summary.as_str())).collect();
    assert_eq!(
        order,
        vec![("Work", "Weekly"), ("Home", "Weekly"), ("Work", "Planning"), ("Home", "Planning")]
    );
}

#[test]
fn window_excludes_its_end() {
    let dt = DatePerhapsTime::DateTime(CalendarDateTime::Utc(utc(2024, 6, 3, 9, 0, 0)));
    let now = utc(2024, 6, 1, 0, 0, 0);
    let cutoff = utc(2024, 6, 10, 9, 0, 0);
    let instances = expand_recurring(&dt, "FREQ=WEEKLY;COUNT=4", now, cutoff);
    assert_eq!(instances, vec![utc(2024, 6, 3, 9, 0, 0)]);
    let one_off = calendar_events(&config("Work"), FEED, now, utc(2024, 6, 3, 9, 0, 0)).unwrap();
    assert!(one_off.iter().all(|e| e.summary != "Planning"), "{one_off:?}");
    let one_off = calendar_events(&config("Work"), FEED, now, utc(2024, 6, 3, 9, 0, 1)).unwrap();
    assert!(one_off.iter().any(|e| e.summary == "Planning"), "{one_off:?}");
}

#[test]
fn empty_summaries_get_a_title() {
    let feed = "BEGIN:VCALENDAR\r\nVERSION:2.0\r\nPRODID:-//test//EN\r\n\
BEGIN:VEVENT\r\nUID:e\r\nSUMMARY:\r\nDTSTART:20240603T090000Z\r\nEND:VEVENT\r\n\
END:VCALENDAR\r\n";
    let events =
        calendar_events(&config("Work"), feed, utc(2024, 6, 1, 0, 0, 0), utc(2024, 6, 8, 0, 0, 0))
            .unwrap();
    assert_eq!(events.len(), 1);
    assert_eq!(events[0].summary, "(no title)");
}

#[test]
fn whole_day_recurrence_with_until_date() {
    // A whole-day start is read in the machine's local time zone, so only
    // the number of days, their order and the window are fixed here.
    let start = DatePerhapsTime::Date(day(2024, 6, 3));
    let now = utc(2024, 5, 30, 0, 0, 0);
    let cutoff = utc(2024, 7, 1, 0, 0, 0);
    let instances = expand_recurring(&start, "FREQ=WEEKLY;UNTIL=20240617", now, cutoff);
    assert_eq!(instances.len(), 3, "{instances:?}");
    assert!(instances.windows(2).all(|w| w[1] - w[0] == 7 * 86400));
    assert!(instances.iter().all(|t| now <= *t && *t < cutoff));
}

#[test]
fn rules_of_several_lines_reach_rrule() {
    let dt = DatePerhapsTime::DateTime(CalendarDateTime::Utc(utc(2024, 6, 3, 9, 0, 0)));
    let now = utc(2024, 6, 1, 0, 0, 0);
    let cutoff = utc(2024, 7, 1, 0, 0, 0);
    let instances = expand_recurring(&dt, "FREQ=DAILY\nRDATE:20240605T100000Z", now, cutoff);
    assert_eq!(instances.len(), 29);
    assert!(instances.contains(&utc(2024, 6, 5, 10, 0, 0)));
    assert!(instances.windows(2).all(|w| w[0] < w[1]));
}

#[test]
fn unconfigured_server_answers_no_calendars() {
    let calendars = configured_calendars(Err("bad toml".to_string()));
    let outcome = plan_upcoming(&calendars, utc(2024, 6, 1, 0, 0, 0), 7).map(|_| Vec::new());
    assert_eq!(
        list_events_reply(&outcome, 7),
        "Error fetching calendar events: no calendars configured — add entries to ~/.config/gcal-mcp/config.toml"
    );
}

#[test]
fn years_outside_four_digits_carry_a_sign() {
    let line = |t: i64| dtstart_ical_line(&DatePerhapsTime::DateTime(CalendarDateTime::Utc(t)));
    assert_eq!(line(MIN_TIMESTAMP), "DTSTART:-2621430101T000000Z");
    assert_eq!(line(MAX_TIMESTAMP), "DTSTART:+2621421231T235959Z");
    assert_eq!(line(utc(999, 3, 4, 5, 6, 7)), "DTSTART:09990304T050607Z");
    assert_eq!(line(utc(-5, 12, 31, 23, 0, 0)), "DTSTART:-00051231T230000Z");
    assert_eq!(line(utc(10000, 1, 1, 0, 0, 0)), "DTSTART:+100000101T000000Z");
}

#[test]
fn day_headings_name_weekday_and_month() {
    let mut e = make_event("Work", "Old", 0, true);
    e.start = utc(1969, 12, 31, 12, 0, 0);
    assert_eq!(format_events(&[e], 1), "Wednesday, December 31\n  All day  Old");
}
