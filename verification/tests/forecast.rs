use chrono::{DateTime, Utc};
use mcp_servers::smhi::error::Error;
use mcp_servers::smhi::float32::{f32_to_u32, push_fixed};
use mcp_servers::smhi::smhi_client::{
    coordinate_error, forecast_url, plan_forecast_request, validate_coords, weather_symbol,
    wind_direction_name, CoordinateError, Parameter, TimeSeries,
};
use mcp_servers::smhi::smhi_server::{
    forecast_reply, forecast_request, format_forecast, ForecastParams, DEFAULT_LATITUDE,
    DEFAULT_LONGITUDE,
};

fn at(text: &str) -> i64 {
    text.parse::<DateTime<Utc>>().unwrap().timestamp()
}

fn make_ts(valid_time: i64, params: &[(&str, f32)]) -> TimeSeries {
    TimeSeries {
        valid_time,
        parameters: params
            .iter()
            .map(|(name, val)| Parameter {
                name: name.to_string(),
                values: vec![val.to_bits()],
            })
            .collect(),
    }
}

fn wind(d: f32) -> &'static str {
    wind_direction_name(d.to_bits())
}

fn symbol(c: f32) -> &'static str {
    weather_symbol(c.to_bits())
}

fn coords_ok(lat: f32, lon: f32) -> bool {
    validate_coords(lat.to_bits(), lon.to_bits()).is_ok()
}

fn fixed(v: f32, p: u32) -> String {
    let mut out = Vec::new();
    push_fixed(&mut out, v.to_bits(), p);
    out.iter().collect()
}

// ── smhi_client helpers ───────────────────────────────────────────────────────

#[test]
fn param_extraction() {
    let ts = make_ts(Utc::now().timestamp(), &[("t", 5.0), ("ws", 8.3), ("r", 82.0)]);
    assert_eq!(ts.param("t"), Some(5.0f32.to_bits()));
    assert_eq!(ts.param("ws"), Some(8.3f32.to_bits()));
    assert_eq!(ts.param("missing"), None);
}

#[test]
fn wind_direction_cardinals() {
    assert_eq!(wind(0.0), "N");
    assert_eq!(wind(90.0), "E");
    assert_eq!(wind(180.0), "S");
    assert_eq!(wind(270.0), "W");
    assert_eq!(wind(315.0), "NW");
}

#[test]
fn wind_direction_handles_out_of_range() {
    assert_eq!(wind(360.0), "N");
    assert_eq!(wind(720.0), "N");
    assert_eq!(wind(-45.0), "NW");
    assert_eq!(wind(f32::NAN), "?");
}

#[test]
fn weather_symbol_mapping() {
    assert_eq!(symbol(1.0), "Clear sky");
    assert_eq!(symbol(18.0), "Light rain");
    assert_eq!(symbol(27.0), "Heavy snowfall");
}

#[test]
fn coord_validation_accepts_valid() {
    assert!(coords_ok(57.7089, 11.9746));
    assert!(coords_ok(-90.0, -180.0));
    assert!(coords_ok(90.0, 180.0));
}

#[test]
fn coord_validation_rejects_invalid() {
    assert!(!coords_ok(91.0, 0.0));
    assert!(!coords_ok(0.0, 181.0));
    assert!(!coords_ok(f32::NAN, 0.0));
    assert!(!coords_ok(0.0, f32::INFINITY));
}

#[test]
fn wind_direction_cardinal_points() {
    assert_eq!(wind(0.0), "N");
    assert_eq!(wind(45.0), "NE");
    assert_eq!(wind(90.0), "E");
    assert_eq!(wind(135.0), "SE");
    assert_eq!(wind(180.0), "S");
    assert_eq!(wind(225.0), "SW");
    assert_eq!(wind(270.0), "W");
    assert_eq!(wind(315.0), "NW");
}

#[test]
fn wind_direction_boundary_wraps() {
    // 360° should wrap back to N
    assert_eq!(wind(360.0), "N");
    // 337.5° is the boundary between NW and N — rounds to N
    assert_eq!(wind(338.0), "N");
}

#[test]
fn weather_symbol_all_known_codes() {
    let expected = [
        (1, "Clear sky"),
        (7, "Fog"),
        (11, "Thunderstorm"),
        (18, "Light rain"),
        (19, "Moderate rain"),
        (20, "Heavy rain"),
        (25, "Light snowfall"),
        (27, "Heavy snowfall"),
    ];
    for (code, desc) in expected {
        assert_eq!(symbol(code as f32), desc, "code {code}");
    }
}

#[test]
fn weather_symbol_unknown_code() {
    assert_eq!(symbol(0.0), "Unknown");
    assert_eq!(symbol(99.0), "Unknown");
}

#[test]
fn param_extraction_present() {
    let ts = make_ts(Utc::now().timestamp(), &[("t", 12.5), ("ws", 4.2), ("r", 70.0)]);
    assert_eq!(ts.param("t"), Some(12.5f32.to_bits()));
    assert_eq!(ts.param("ws"), Some(4.2f32.to_bits()));
    assert_eq!(ts.param("r"), Some(70.0f32.to_bits()));
}

#[test]
fn param_extraction_missing() {
    let ts = make_ts(Utc::now().timestamp(), &[("t", 5.0)]);
    assert_eq!(ts.param("wd"), None);
    assert_eq!(ts.param("pmean"), None);
}

// ── format_forecast ───────────────────────────────────────────────────────────

#[test]
fn format_forecast_basic() {
    let ts = make_ts(
        at("2024-03-19T12:00:00Z"),
        &[
            ("t", 5.0),
            ("ws", 8.3),
            ("wd", 315.0),
            ("r", 82.0),
            ("pmean", 1.2),
            ("Wsymb2", 19.0),
        ],
    );
    let output = format_forecast(&[ts], 24);
    assert!(output.contains("5.0°C"));
    assert!(output.contains("8.3 m/s"));
    assert!(output.contains("NW"));
    assert!(output.contains("82%"));
    assert!(output.contains("1.2 mm/h"));
    assert!(output.contains("Moderate rain"));
}

#[test]
fn format_forecast_no_precip() {
    let ts = make_ts(
        at("2024-03-19T08:00:00Z"),
        &[
            ("t", 10.0),
            ("ws", 3.0),
            ("wd", 90.0),
            ("r", 60.0),
            ("pmean", 0.0),
            ("Wsymb2", 1.0),
        ],
    );
    let output = format_forecast(&[ts], 24);
    assert!(!output.contains("mm/h"));
    assert!(output.contains("Clear sky"));
}

#[test]
fn format_forecast_contains_all_fields() {
    let ts = make_ts(
        at("2024-06-15T10:00:00Z"),
        &[
            ("t", 18.0),
            ("ws", 5.5),
            ("wd", 270.0),
            ("r", 65.0),
            ("pmean", 0.0),
            ("Wsymb2", 2.0),
        ],
    );
    let out = format_forecast(&[ts], 24);
    assert!(out.contains("18.0°C"), "temperature: {out}");
    assert!(out.contains("5.5 m/s"), "wind speed: {out}");
    assert!(out.contains("W"), "wind direction: {out}");
    assert!(out.contains("65%"), "humidity: {out}");
    assert!(out.contains("Nearly clear sky"), "symbol: {out}");
}

#[test]
fn format_forecast_shows_precipitation() {
    let ts = make_ts(
        at("2024-11-01T14:00:00Z"),
        &[
            ("t", 4.0),
            ("ws", 9.0),
            ("wd", 180.0),
            ("r", 90.0),
            ("pmean", 2.5),
            ("Wsymb2", 20.0),
        ],
    );
    let out = format_forecast(&[ts], 24);
    assert!(out.contains("2.5 mm/h"), "precipitation: {out}");
    assert!(out.contains("Heavy rain"), "symbol: {out}");
}

#[test]
fn format_forecast_hides_zero_precipitation() {
    let ts = make_ts(
        at("2024-06-01T08:00:00Z"),
        &[
            ("t", 20.0),
            ("ws", 2.0),
            ("wd", 90.0),
            ("r", 45.0),
            ("pmean", 0.0),
            ("Wsymb2", 1.0),
        ],
    );
    let out = format_forecast(&[ts], 24);
    assert!(!out.contains("mm/h"), "should not show zero precip: {out}");
}

#[test]
fn format_forecast_respects_hours_limit() {
    let entries: Vec<TimeSeries> = (0..10)
        .map(|i| {
            make_ts(
                at(&format!("2024-06-01T{i:02}:00:00Z")),
                &[("t", i as f32), ("ws", 1.0), ("wd", 0.0), ("r", 50.0)],
            )
        })
        .collect();

    let out3 = format_forecast(&entries, 3);
    assert_eq!(out3.lines().count(), 3, "should have 3 lines: {out3}");

    let out10 = format_forecast(&entries, 10);
    assert_eq!(out10.lines().count(), 10, "should have 10 lines: {out10}");
}

#[test]
fn format_forecast_empty_input() {
    let out = format_forecast(&[], 24);
    assert_eq!(out, "No forecast data available.");
}

// ── The whole text ────────────────────────────────────────────────────────────

#[test]
fn forecast_line_is_exact() {
    let ts = make_ts(
        at("2024-03-19T12:00:00Z"),
        &[
            ("t", 5.0),
            ("ws", 8.3),
            ("wd", 315.0),
            ("r", 82.0),
            ("pmean", 1.2),
            ("Wsymb2", 19.0),
        ],
    );
    assert_eq!(
        format_forecast(&[ts], 24),
        "Tue 19 Mar 12:00 UTC: 5.0°C, wind 8.3 m/s NW, rain 1.2 mm/h, humidity 82% — Moderate rain"
    );
}

#[test]
fn forecast_missing_readings_show_question_marks() {
    let ts = make_ts(at("2024-06-01T00:00:00Z"), &[]);
    assert_eq!(
        format_forecast(&[ts], 24),
        "Sat 01 Jun 00:00 UTC: ?, wind ? ?, humidity ? — ?"
    );
}

#[test]
fn forecast_lines_are_joined_in_order() {
    let a = make_ts(at("2024-06-01T00:00:00Z"), &[("t", -1.25)]);
    let b = make_ts(at("2024-06-01T01:00:00Z"), &[("t", 0.05)]);
    let c = make_ts(at("2024-06-01T02:00:00Z"), &[("t", 30.0)]);
    let out = format_forecast(&[a, b, c], 2);
    assert_eq!(
        out,
        "Sat 01 Jun 00:00 UTC: -1.2°C, wind ? ?, humidity ? — ?\n\
         Sat 01 Jun 01:00 UTC: 0.1°C, wind ? ?, humidity ? — ?"
    );
}

#[test]
fn first_parameter_of_a_name_wins() {
    let ts = TimeSeries {
        valid_time: 0,
        parameters: vec![
            Parameter { name: "t".to_string(), values: vec![] },
            Parameter { name: "t".to_string(), values: vec![3.0f32.to_bits()] },
            Parameter { name: "ws".to_string(), values: vec![1.0f32.to_bits(), 2.0f32.to_bits()] },
        ],
    };
    assert_eq!(ts.param("t"), None);
    assert_eq!(ts.param("ws"), Some(1.0f32.to_bits()));
}

#[test]
fn forecast_request_defaults_and_limit() {
    let none = ForecastParams { lat: None, lon: None, hours: None };
    assert_eq!(forecast_request(&none), (57.7089f32.to_bits(), 11.9746f32.to_bits(), 24));
    assert_eq!(DEFAULT_LATITUDE, 57.7089f32.to_bits());
    assert_eq!(DEFAULT_LONGITUDE, 11.9746f32.to_bits());
    let given = ForecastParams { lat: Some(1.5f32.to_bits()), lon: Some(2.5f32.to_bits()), hours: Some(1000) };
    assert_eq!(forecast_request(&given), (1.5f32.to_bits(), 2.5f32.to_bits(), 240));
    let few = ForecastParams { lat: None, lon: None, hours: Some(3) };
    assert_eq!(forecast_request(&few).2, 3);
}

#[test]
fn forecast_reply_reports_errors() {
    let failed: Result<Vec<TimeSeries>, String> = Err("sending SMHI request".to_string());
    assert_eq!(forecast_reply(&failed, 24), "Error fetching forecast: sending SMHI request");
    let empty: Result<Vec<TimeSeries>, String> = Ok(vec![]);
    assert_eq!(forecast_reply(&empty, 24), "No forecast data available.");
}

#[test]
fn coordinate_errors_name_the_coordinate() {
    assert_eq!(validate_coords(91.0f32.to_bits(), 0), Err(CoordinateError::Latitude));
    assert_eq!(validate_coords(91.0f32.to_bits(), 500.0f32.to_bits()), Err(CoordinateError::Latitude));
    assert_eq!(validate_coords(0, (-180.5f32).to_bits()), Err(CoordinateError::Longitude));
    assert_eq!(validate_coords((-0.0f32).to_bits(), 0), Ok(()));
    let e = coordinate_error(CoordinateError::Latitude, "91");
    assert_eq!(e.message(), "invalid coordinate: latitude 91 is out of range (expected -90..=90)");
    let e = coordinate_error(CoordinateError::Longitude, "181");
    assert_eq!(e.message(), "invalid coordinate: longitude 181 is out of range (expected -180..=180)");
    assert_eq!(Error::Http("timeout".to_string()).message(), "HTTP request failed: timeout");
}

#[test]
fn forecast_url_layout() {
    assert_eq!(
        forecast_url("57.7089", "11.9746"),
        "https://opendata-download-metfcst.smhi.se/api/category/pmp3g/version/2/geotype/point/lon/11.9746/lat/57.7089/data.json"
    );
}

// ── Agreement with single-precision arithmetic ────────────────────────────────

fn reference_wind(degrees: f32) -> &'static str {
    if !degrees.is_finite() {
        return "?";
    }
    let normalized = degrees.rem_euclid(360.0);
    let index = ((normalized + 22.5) / 45.0) as u32 % 8;
    ["N", "NE", "E", "SE", "S", "SW", "W", "NW"][index as usize]
}

fn sample_patterns() -> Vec<u32> {
    let mut v: Vec<u32> = (0..=u32::MAX).step_by(16411).collect();
    for edge in [22.5f32, 67.5, 112.5, 157.5, 202.5, 247.5, 292.5, 337.5, 360.0, 720.0, 1e-30, 1.0] {
        for sign in [1.0f32, -1.0] {
            let b = (edge * sign).to_bits();
            for d in 0..40u32 {
                v.push(b.wrapping_add(d));
                v.push(b.wrapping_sub(d));
            }
        }
    }
    for k in 0..2000u32 {
        let base = (k as f32) * 0.5;
        v.push(base.to_bits());
        v.push((-base).to_bits());
        v.push((base + 0.05).to_bits());
        v.push((base * 360.0 + 22.5).to_bits());
    }
    v.extend([0, 0x8000_0000, 0x7f80_0000, 0xff80_0000, 0x7fc0_0000, 0xffc0_0000, 1, 0x8000_0001, 0x7f7f_ffff, 0xff7f_ffff]);
    v
}

#[test]
fn wind_direction_agrees_with_single_precision() {
    for b in sample_patterns() {
        let d = f32::from_bits(b);
        assert_eq!(wind_direction_name(b), reference_wind(d), "degrees {d:e} ({b:#x})");
    }
}

#[test]
fn fixed_point_agrees_with_formatting() {
    for b in sample_patterns() {
        let v = f32::from_bits(b);
        assert_eq!(fixed(v, 1), format!("{v:.1}"), "value {v:e} ({b:#x})");
        assert_eq!(fixed(v, 0), format!("{v:.0}"), "value {v:e} ({b:#x})");
    }
}

#[test]
fn fixed_point_rounds_ties_to_even() {
    assert_eq!(fixed(0.5, 0), format!("{:.0}", 0.5f32));
    assert_eq!(fixed(1.5, 0), "2");
    assert_eq!(fixed(2.5, 0), format!("{:.0}", 2.5f32));
    assert_eq!(fixed(0.25, 1), format!("{:.1}", 0.25f32));
    assert_eq!(fixed(-0.0, 1), format!("{:.1}", -0.0f32));
    assert_eq!(fixed(f32::MAX, 1), format!("{:.1}", f32::MAX));
    assert_eq!(fixed(f32::NEG_INFINITY, 0), "-inf");
    assert_eq!(fixed(f32::NAN, 1), "NaN");
}

#[test]
fn integer_conversion_saturates() {
    for b in sample_patterns() {
        let v = f32::from_bits(b);
        assert_eq!(f32_to_u32(b), v as u32, "value {v:e} ({b:#x})");
    }
}

#[test]
fn coordinate_check_agrees_with_comparisons() {
    for b in sample_patterns() {
        let v = f32::from_bits(b);
        let lat_ok = v.is_finite() && (-90.0..=90.0).contains(&v);
        let lon_ok = v.is_finite() && (-180.0..=180.0).contains(&v);
        assert_eq!(validate_coords(b, 0).is_ok(), lat_ok, "latitude {v:e}");
        assert_eq!(validate_coords(0, b).is_ok(), lon_ok, "longitude {v:e}");
    }
}

#[test]
fn precipitation_shown_exactly_when_positive() {
    for b in sample_patterns().into_iter().step_by(7) {
        let p = f32::from_bits(b);
        let ts = make_ts(0, &[("pmean", p)]);
        let out = format_forecast(&[ts], 1);
        assert_eq!(out.contains("mm/h"), p > 0.0, "precipitation {p:e}");
    }
}

#[test]
fn weather_symbols_unknown_exactly_outside_table() {
    let mut seen = std::collections::HashSet::new();
    for code in 1..=27u32 {
        let name = symbol(code as f32);
        assert_ne!(name, "Unknown");
        assert!(seen.insert(name), "{name} repeated");
        assert_eq!(symbol(code as f32 + 0.7), name);
    }
    for v in [0.0f32, 0.99, 28.0, 1e9, -1.0, f32::NAN, f32::INFINITY] {
        assert_eq!(symbol(v), "Unknown", "{v}");
    }
}

#[test]
fn forecast_request_refused_before_any_address() {
    let refused = plan_forecast_request(91.0f32.to_bits(), 0, "91", "0");
    assert!(matches!(&refused, Err(Error::InvalidCoordinate(m)) if m == "latitude 91 is out of range (expected -90..=90)"));
    let refused = plan_forecast_request(0, 181.0f32.to_bits(), "0", "181");
    assert!(matches!(&refused, Err(Error::InvalidCoordinate(m)) if m == "longitude 181 is out of range (expected -180..=180)"));
    assert_eq!(
        plan_forecast_request(57.7089f32.to_bits(), 11.9746f32.to_bits(), "57.7089", "11.9746").unwrap(),
        "https://opendata-download-metfcst.smhi.se/api/category/pmp3g/version/2/geotype/point/lon/11.9746/lat/57.7089/data.json"
    );
}
