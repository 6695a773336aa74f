//! The forecast tool: its parameters, the position and horizon it asks for,
//! and the text it answers.

use vstd::prelude::*;
use crate::clock::{representable, chrono_format_utc, format_utc};
use crate::smhi::float32::{
    fixed_text, push_fixed, greater_than_zero, is_greater_than_zero, to_u32_saturating,
};
use crate::smhi::smhi_client::{
    TimeSeries, symbol_name, weather_symbol, wind_direction_text, wind_direction_name,
};
use crate::text::{push_str, string_from_chars, join_lines, push_line};

verus! {

/// Parameters of the forecast tool; readings are single-precision bit patterns.
pub struct ForecastParams {
    /// Latitude in decimal degrees (default: 57.7089 for Gothenburg).
    pub lat: Option<u32>,
    /// Longitude in decimal degrees (default: 11.9746 for Gothenburg).
    pub lon: Option<u32>,
    /// Number of hours ahead to include (default: 24, max: 240).
    pub hours: Option<u32>,
}

/// The latitude asked for when none is given: 57.7089.
pub const DEFAULT_LATITUDE: u32 = 0x4266_d5ea;

/// The longitude asked for when none is given: 11.9746.
pub const DEFAULT_LONGITUDE: u32 = 0x413f_97f6;

/// The number of forecast steps shown for a requested number of hours.
pub open spec fn spec_forecast_hours(hours: Option<u32>) -> nat {
    match hours {
        Some(h) => if h < 240 { h as nat } else { 240 },
        None => 24,
    }
}

/// The position and the number of steps a request asks for.
pub fn forecast_request(params: &ForecastParams) -> (r: (u32, u32, usize))
    ensures
        r.0 == (match params.lat {
            Some(v) => v,
            None => DEFAULT_LATITUDE,
        }),
        r.1 == (match params.lon {
            Some(v) => v,
            None => DEFAULT_LONGITUDE,
        }),
        r.2 == spec_forecast_hours(params.hours),
{
    let lat = match params.lat {
        Some(v) => v,
        None => DEFAULT_LATITUDE,
    };
    let lon = match params.lon {
        Some(v) => v,
        None => DEFAULT_LONGITUDE,
    };
    let hours: u32 = match params.hours {
        Some(h) => if h < 240 { h } else { 240 },
        None => 24,
    };
    (lat, lon, hours as usize)
}

/// A reading rendered by `shown`, or `?` when it is missing.
pub open spec fn or_unknown(v: Option<u32>, shown: spec_fn(u32) -> Seq<char>) -> Seq<char> {
    match v {
        Some(x) => shown(x),
        None => "?"@,
    }
}

/// The precipitation note: shown only for an amount greater than zero.
pub open spec fn precipitation_note(v: Option<u32>) -> Seq<char> {
    match v {
        Some(p) => if greater_than_zero(p) {
            ", rain "@ + fixed_text(p, 1) + " mm/h"@
        } else {
            Seq::empty()
        },
        None => Seq::empty(),
    }
}

/// The line of one forecast step: time, temperature, wind speed and
/// direction, precipitation when there is any, humidity and weather.
pub open spec fn forecast_line(ts: TimeSeries) -> Seq<char> {
    chrono_format_utc(ts.valid_time as int, "%a %d %b %H:%M UTC"@) + ": "@
        + or_unknown(ts.spec_param("t"@), |v: u32| fixed_text(v, 1) + "°C"@) + ", wind "@
        + or_unknown(ts.spec_param("ws"@), |v: u32| fixed_text(v, 1) + " m/s"@) + " "@
        + or_unknown(ts.spec_param("wd"@), |v: u32| wind_direction_text(v))
        + precipitation_note(ts.spec_param("pmean"@)) + ", humidity "@
        + or_unknown(ts.spec_param("r"@), |v: u32| fixed_text(v, 0) + "%"@) + " — "@
        + or_unknown(ts.spec_param("Wsymb2"@), |v: u32| symbol_name(to_u32_saturating(v)))
}

/// The lines of the first `n` steps.
pub open spec fn forecast_lines(steps: Seq<TimeSeries>, n: int) -> Seq<Seq<char>> {
    Seq::new(n as nat, |i: int| forecast_line(steps[i]))
}

/// The forecast text for at most `hours` steps: one line per step, or a
/// notice when there is none.
pub open spec fn spec_format_forecast(steps: Seq<TimeSeries>, hours: nat) -> Seq<char> {
    let n = if hours < steps.len() { hours as int } else { steps.len() as int };
    if n == 0 {
        "No forecast data available."@
    } else {
        join_lines(forecast_lines(steps, n))
    }
}

/// Appends the reading rendered with `p` digits after the point and a unit,
/// or `?` when it is missing.
fn push_reading(line: &mut Vec<char>, v: Option<u32>, p: u32, unit: &str)
    requires
        p <= 1,
    ensures
        final(line)@ == old(line)@ + or_unknown(v, |x: u32| fixed_text(x, p as nat) + unit@),
{
    match v {
        Some(x) => {
            push_fixed(line, x, p);
            push_str(line, unit);
        },
        None => push_str(line, "?"),
    }
}

/// The line of one forecast step.
fn forecast_line_exec(ts: &TimeSeries) -> (r: Vec<char>)
    requires
        representable(ts.valid_time as int),
    ensures
        r@ == forecast_line(*ts),
{
    let mut line: Vec<char> = Vec::new();
    let when = format_utc(ts.valid_time, "%a %d %b %H:%M UTC");
    push_str(&mut line, when.as_str());
    push_str(&mut line, ": ");
    push_reading(&mut line, ts.param("t"), 1, "°C");
    push_str(&mut line, ", wind ");
    push_reading(&mut line, ts.param("ws"), 1, " m/s");
    push_str(&mut line, " ");
    match ts.param("wd") {
        Some(d) => push_str(&mut line, wind_direction_name(d)),
        None => push_str(&mut line, "?"),
    }
    match ts.param("pmean") {
        Some(p) => {
            if is_greater_than_zero(p) {
                push_str(&mut line, ", rain ");
                push_fixed(&mut line, p, 1);
                push_str(&mut line, " mm/h");
            }
        },
        None => {},
    }
    push_str(&mut line, ", humidity ");
    push_reading(&mut line, ts.param("r"), 0, "%");
    push_str(&mut line, " — ");
    match ts.param("Wsymb2") {
        Some(c) => push_str(&mut line, weather_symbol(c)),
        None => push_str(&mut line, "?"),
    }
    line
}

/// The forecast text for the first `hours` steps of `time_series`.
pub fn format_forecast(time_series: &[TimeSeries], hours: usize) -> (r: String)
    requires
        forall|i: int|
            0 <= i < time_series@.len() ==> representable(
                (#[trigger] time_series@[i]).valid_time as int,
            ),
    ensures
        r@ == spec_format_forecast(time_series@, hours as nat),
{
    let n: usize = if hours < time_series.len() { hours } else { time_series.len() };
    if n == 0 {
        let mut v: Vec<char> = Vec::new();
        push_str(&mut v, "No forecast data available.");
        return string_from_chars(v.as_slice());
    }
    let mut out: Vec<char> = Vec::new();
    let ghost mut lines: Seq<Seq<char>> = Seq::empty();
    let mut i: usize = 0;
    while i < n
        invariant
            n <= time_series@.len(),
            i <= n,
            forall|j: int|
                0 <= j < time_series@.len() ==> representable(
                    (#[trigger] time_series@[j]).valid_time as int,
                ),
            lines == forecast_lines(time_series@, i as int),
            out@ == join_lines(lines),
        decreases n - i,
    {
        let line = forecast_line_exec(&time_series[i]);
        push_line(&mut out, Ghost(lines), i == 0, &line);
        proof {
            lines = lines.push(line@);
            assert(lines =~= forecast_lines(time_series@, i + 1));
        }
        i = i + 1;
    }
    string_from_chars(out.as_slice())
}

/// The reply of the forecast tool: the forecast text, or the reason it
/// could not be fetched.
pub open spec fn spec_forecast_reply(outcome: Result<Vec<TimeSeries>, String>, hours: nat) -> Seq<char> {
    match outcome {
        Ok(steps) => spec_format_forecast(steps@, hours),
        Err(e) => "Error fetching forecast: "@ + e@,
    }
}

/// The reply of the forecast tool for the outcome of the fetch.
pub fn forecast_reply(outcome: &Result<Vec<TimeSeries>, String>, hours: usize) -> (r: String)
    requires
        outcome matches Ok(steps) ==> forall|i: int|
            0 <= i < steps@.len() ==> representable((#[trigger] steps@[i]).valid_time as int),
    ensures
        r@ == spec_forecast_reply(*outcome, hours as nat),
{
    match outcome {
        Ok(steps) => format_forecast(steps.as_slice(), hours),
        Err(e) => {
            let mut v: Vec<char> = Vec::new();
            push_str(&mut v, "Error fetching forecast: ");
            push_str(&mut v, e.as_str());
            string_from_chars(v.as_slice())
        },
    }
}

} // verus!
