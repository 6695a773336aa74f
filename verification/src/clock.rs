//! Instants as whole seconds since the Unix epoch (UTC), the range of them
//! that the calendar library can represent, and their rendering as text.

use vstd::prelude::*;
use crate::text::{decimal, digit_char};

verus! {

/// The earliest instant the calendar library represents: chrono's
/// `DateTime::<Utc>::MIN_UTC`, in seconds since the epoch.
pub const MIN_TIMESTAMP: i64 = -8334601228800i64;

/// The latest instant the calendar library represents: chrono's
/// `DateTime::<Utc>::MAX_UTC` (+262142-12-31T23:59:59Z), in seconds since the epoch.
pub const MAX_TIMESTAMP: i64 = 8210266876799i64;

/// The first day the calendar library represents (chrono's `NaiveDate::MIN`),
/// in days since 1970-01-01.
pub const MIN_EPOCH_DAY: i64 = -96465292i64;

/// The last day the calendar library represents (chrono's `NaiveDate::MAX`),
/// in days since 1970-01-01.
pub const MAX_EPOCH_DAY: i64 = 95026236i64;

/// Whether `t` seconds since the epoch is an instant the calendar library represents.
pub open spec fn representable(t: int) -> bool {
    MIN_TIMESTAMP <= t && t <= MAX_TIMESTAMP
}

/// Whether `d` days since the epoch is a day the calendar library represents.
pub open spec fn representable_day(d: int) -> bool {
    MIN_EPOCH_DAY <= d && d <= MAX_EPOCH_DAY
}

/// The day (counted from 1970-01-01) on which the instant `t` falls, in UTC.
pub open spec fn day_of(t: int) -> int {
    t / 86400
}

/// The day on which the instant `t` falls, in UTC.
pub fn day_of_instant(t: i64) -> (r: i64)
    ensures
        r == day_of(t as int),
{
    if t >= 0 {
        t / 86400
    } else {
        let m: i64 = -(t + 1);
        let q: i64 = m / 86400;
        assert(t / 86400 == -q - 1) by (nonlinear_arith)
            requires
                m == -(t + 1),
                q == m / 86400,
                m >= 0,
        ;
        -q - 1
    }
}

/// The layouts in which instants are rendered. Only these are admitted:
/// chrono panics when it renders a malformed layout.
pub open spec fn supported_layout(layout: Seq<char>) -> bool {
    ||| layout == "%A, %B %-d"@
    ||| layout == "%H:%M UTC"@
    ||| layout == "%a %d %b %H:%M UTC"@
    ||| layout == "%Y%m%dT%H%M%S"@
    ||| layout == "%Y%m%d"@
}

/// The proleptic Gregorian (year, month, day) of the day `z`, counted in
/// days from 1970-01-01.
pub open spec fn civil_date(z: int) -> (int, int, int) {
    let zz = z + 719468;
    let era = zz / 146097;
    let doe = zz - era * 146097;
    let yoe = (doe - doe / 1460 + doe / 36524 - doe / 146096) / 365;
    let doy = doe - (365 * yoe + yoe / 4 - yoe / 100);
    let mp = (5 * doy + 2) / 153;
    let d = doy - (153 * mp + 2) / 5 + 1;
    let m = if mp < 10 { mp + 3 } else { mp - 9 };
    let y = yoe + era * 400;
    (if m <= 2 { y + 1 } else { y }, m, d)
}

/// The day of the week of the day `z` (0 = Sunday): 1970-01-01 was a Thursday.
pub open spec fn weekday_of(z: int) -> int {
    (z + 4) % 7
}

/// The English name of weekday `w` (0 = Sunday).
pub open spec fn weekday_name(w: int) -> Seq<char> {
    if w == 0 {
        "Sunday"@
    } else if w == 1 {
        "Monday"@
    } else if w == 2 {
        "Tuesday"@
    } else if w == 3 {
        "Wednesday"@
    } else if w == 4 {
        "Thursday"@
    } else if w == 5 {
        "Friday"@
    } else {
        "Saturday"@
    }
}

/// The English name of month `m` (1 = January).
pub open spec fn month_name(m: int) -> Seq<char> {
    if m == 1 {
        "January"@
    } else if m == 2 {
        "February"@
    } else if m == 3 {
        "March"@
    } else if m == 4 {
        "April"@
    } else if m == 5 {
        "May"@
    } else if m == 6 {
        "June"@
    } else if m == 7 {
        "July"@
    } else if m == 8 {
        "August"@
    } else if m == 9 {
        "September"@
    } else if m == 10 {
        "October"@
    } else if m == 11 {
        "November"@
    } else {
        "December"@
    }
}

/// `n` (below 100) in two digits.
pub open spec fn two_digits(n: int) -> Seq<char> {
    seq![digit_char((n / 10) as nat), digit_char((n % 10) as nat)]
}

/// `n` (below 10000) in four digits.
pub open spec fn four_digits(n: int) -> Seq<char> {
    two_digits(n / 100) + two_digits(n % 100)
}

/// A year as `%Y` writes it: four digits for years 0 to 9999, otherwise a
/// sign and at least four digits.
pub open spec fn year_text(y: int) -> Seq<char> {
    if 0 <= y <= 9999 {
        four_digits(y)
    } else {
        let a = if y < 0 { -y } else { y };
        (if y < 0 { seq!['-'] } else { seq!['+'] }) + (if a <= 9999 {
            four_digits(a)
        } else {
            decimal(a as nat)
        })
    }
}

/// What chrono's `strftime`-style formatting gives for the UTC instant `t`
/// in one of the [`supported_layout`]s: `%Y` the year, `%m`, `%d`, `%H`,
/// `%M`, `%S` two digits, `%-d` the day without padding, `%A`/`%a` the
/// weekday's English name and its first three letters, `%B`/`%b` the
/// month's likewise; other characters stand for themselves.
pub open spec fn chrono_format_utc(t: int, layout: Seq<char>) -> Seq<char> {
    let z = t / 86400;
    let s = t % 86400;
    let (y, m, d) = civil_date(z);
    let hm = two_digits(s / 3600) + ":"@ + two_digits(s % 3600 / 60);
    if layout == "%A, %B %-d"@ {
        weekday_name(weekday_of(z)) + ", "@ + month_name(m) + " "@ + decimal(d as nat)
    } else if layout == "%H:%M UTC"@ {
        hm + " UTC"@
    } else if layout == "%a %d %b %H:%M UTC"@ {
        weekday_name(weekday_of(z)).take(3) + " "@ + two_digits(d) + " "@ + month_name(m).take(3)
            + " "@ + hm + " UTC"@
    } else if layout == "%Y%m%dT%H%M%S"@ {
        year_text(y) + two_digits(m) + two_digits(d) + "T"@ + two_digits(s / 3600)
            + two_digits(s % 3600 / 60) + two_digits(s % 60)
    } else {
        year_text(y) + two_digits(m) + two_digits(d)
    }
}

/// Renders the UTC instant `t` in `layout`.
///
/// Trusted: wraps chrono's `DateTime::<Utc>::from_timestamp` and
/// `DateTime::format`; the contract claims that the instant exists for every
/// representable `t` and that the text is the one `chrono_format_utc`
/// describes, as chrono's formatting source (`format/formatting.rs`) writes
/// each specifier.
#[verifier::external_body]
pub(crate) fn format_utc(t: i64, layout: &str) -> (r: String)
    requires
        representable(t as int),
        supported_layout(layout@),
    ensures
        r@ == chrono_format_utc(t as int, layout@),
{
    chrono::DateTime::from_timestamp(t, 0).expect("representable instant").format(layout).to_string()
}

} // verus!
