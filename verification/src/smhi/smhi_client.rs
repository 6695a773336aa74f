//! The records of the point forecast and what is read from them: a named
//! reading, the compass name of a wind direction, the description of a
//! weather symbol, and the check of the requested coordinates. Readings are
//! single-precision values held as their bit patterns.

use vstd::prelude::*;
use crate::smhi::error::Error;
use crate::smhi::float32::{
    is_finite, units, one, to_u32_saturating, f32_to_u32, magnitude_at_most, wind_sector,
    compass_sector, exp_of,
};
use crate::text::{chars_of, chars_equal, push_str, string_from_chars};
use vstd::arithmetic::power2::{pow2, lemma_pow2_adds, lemma2_to64};

verus! {

/// One named quantity of a forecast step and its values.
#[derive(Debug, Clone)]
pub struct Parameter {
    /// The short name, such as `t` (temperature) or `ws` (wind speed).
    pub name: String,
    /// The values, as single-precision bit patterns.
    pub values: Vec<u32>,
}

/// One step of the forecast.
#[derive(Debug, Clone)]
pub struct TimeSeries {
    /// The instant the step is valid for, in seconds since the Unix epoch.
    pub valid_time: i64,
    /// The quantities forecast for that instant.
    pub parameters: Vec<Parameter>,
}

/// A point forecast: its steps in time order.
#[derive(Debug, Clone)]
pub struct SmhiForecast {
    pub time_series: Vec<TimeSeries>,
}

/// The first value of the first parameter called `name`, if that parameter
/// exists and has a value.
pub open spec fn first_value(ps: Seq<Parameter>, name: Seq<char>) -> Option<u32>
    decreases ps.len(),
{
    if ps.len() == 0 {
        None
    } else if ps[0].name@ == name {
        if ps[0].values@.len() > 0 {
            Some(ps[0].values@[0])
        } else {
            None
        }
    } else {
        first_value(ps.drop_first(), name)
    }
}

impl TimeSeries {
    /// The first value of the named parameter, if present.
    pub open spec fn spec_param(&self, name: Seq<char>) -> Option<u32> {
        first_value(self.parameters@, name)
    }

    /// Extracts the first value of a named parameter, if present.
    pub fn param(&self, name: &str) -> (r: Option<u32>)
        ensures
            r == self.spec_param(name@),
    {
        let ghost ps = self.parameters@;
        let mut i: usize = 0;
        assert(ps.skip(0) =~= ps);
        while i < self.parameters.len()
            invariant
                ps == self.parameters@,
                i <= ps.len(),
                first_value(ps, name@) == first_value(ps.skip(i as int), name@),
            decreases self.parameters.len() - i,
        {
            let p = &self.parameters[i];
            assert(ps.skip(i as int)[0] == ps[i as int]);
            let cs = chars_of(p.name.as_str());
            if chars_equal(&cs, name) {
                if p.values.len() > 0 {
                    return Some(p.values[0]);
                }
                return None;
            }
            assert(ps.skip(i as int).drop_first() =~= ps.skip(i + 1));
            i = i + 1;
        }
        assert(ps.skip(i as int).len() == 0);
        None
    }
}

/// The name of compass sector `i`.
pub open spec fn compass_point(i: nat) -> Seq<char> {
    if i == 0 {
        "N"@
    } else if i == 1 {
        "NE"@
    } else if i == 2 {
        "E"@
    } else if i == 3 {
        "SE"@
    } else if i == 4 {
        "S"@
    } else if i == 5 {
        "SW"@
    } else if i == 6 {
        "W"@
    } else {
        "NW"@
    }
}

/// The compass name of the wind direction `b` in degrees: `?` unless finite.
pub open spec fn wind_direction_text(b: u32) -> Seq<char> {
    if is_finite(b) {
        compass_point(wind_sector(b))
    } else {
        "?"@
    }
}

/// The compass name (`N`, `NE`, ..., `NW`) of a wind direction in degrees,
/// as `((d.rem_euclid(360) + 22.5) / 45) as u32 % 8` picks it in single
/// precision, or `?` when the reading is not finite.
pub fn wind_direction_name(degrees: u32) -> (r: &'static str)
    ensures
        r@ == wind_direction_text(degrees),
{
    if exp_of(degrees) == 255 {
        return "?";
    }
    match compass_sector(degrees) {
        0 => "N",
        1 => "NE",
        2 => "E",
        3 => "SE",
        4 => "S",
        5 => "SW",
        6 => "W",
        _ => "NW",
    }
}

/// The description of a weather symbol code (1 to 27).
pub open spec fn symbol_name(code: u32) -> Seq<char> {
    if code == 1 {
        "Clear sky"@
    } else if code == 2 {
        "Nearly clear sky"@
    } else if code == 3 {
        "Variable cloudiness"@
    } else if code == 4 {
        "Halfclear sky"@
    } else if code == 5 {
        "Cloudy sky"@
    } else if code == 6 {
        "Overcast"@
    } else if code == 7 {
        "Fog"@
    } else if code == 8 {
        "Light rain showers"@
    } else if code == 9 {
        "Moderate rain showers"@
    } else if code == 10 {
        "Heavy rain showers"@
    } else if code == 11 {
        "Thunderstorm"@
    } else if code == 12 {
        "Light sleet showers"@
    } else if code == 13 {
        "Moderate sleet showers"@
    } else if code == 14 {
        "Heavy sleet showers"@
    } else if code == 15 {
        "Light snow showers"@
    } else if code == 16 {
        "Moderate snow showers"@
    } else if code == 17 {
        "Heavy snow showers"@
    } else if code == 18 {
        "Light rain"@
    } else if code == 19 {
        "Moderate rain"@
    } else if code == 20 {
        "Heavy rain"@
    } else if code == 21 {
        "Thunder"@
    } else if code == 22 {
        "Light sleet"@
    } else if code == 23 {
        "Moderate sleet"@
    } else if code == 24 {
        "Heavy sleet"@
    } else if code == 25 {
        "Light snowfall"@
    } else if code == 26 {
        "Moderate snowfall"@
    } else if code == 27 {
        "Heavy snowfall"@
    } else {
        "Unknown"@
    }
}

/// The code a weather description stands for: 0 for any other text.
pub open spec fn symbol_code(name: Seq<char>) -> u32 {
    if name == "Clear sky"@ {
        1
    } else if name == "Nearly clear sky"@ {
        2
    } else if name == "Variable cloudiness"@ {
        3
    } else if name == "Halfclear sky"@ {
        4
    } else if name == "Cloudy sky"@ {
        5
    } else if name == "Overcast"@ {
        6
    } else if name == "Fog"@ {
        7
    } else if name == "Light rain showers"@ {
        8
    } else if name == "Moderate rain showers"@ {
        9
    } else if name == "Heavy rain showers"@ {
        10
    } else if name == "Thunderstorm"@ {
        11
    } else if name == "Light sleet showers"@ {
        12
    } else if name == "Moderate sleet showers"@ {
        13
    } else if name == "Heavy sleet showers"@ {
        14
    } else if name == "Light snow showers"@ {
        15
    } else if name == "Moderate snow showers"@ {
        16
    } else if name == "Heavy snow showers"@ {
        17
    } else if name == "Light rain"@ {
        18
    } else if name == "Moderate rain"@ {
        19
    } else if name == "Heavy rain"@ {
        20
    } else if name == "Thunder"@ {
        21
    } else if name == "Light sleet"@ {
        22
    } else if name == "Moderate sleet"@ {
        23
    } else if name == "Heavy sleet"@ {
        24
    } else if name == "Light snowfall"@ {
        25
    } else if name == "Moderate snowfall"@ {
        26
    } else if name == "Heavy snowfall"@ {
        27
    } else {
        0
    }
}

/// A weather symbol reads "Unknown" exactly when its code lies outside 1 to
/// 27, and each code from 1 to 27 has a description of its own: the
/// description gives the code back.
pub proof fn lemma_weather_symbol_table(code: u32)
    ensures
        (symbol_name(code) == "Unknown"@) <==> !(1 <= code && code <= 27),
        1 <= code && code <= 27 ==> symbol_code(symbol_name(code)) == code,
{
    reveal_strlit("Clear sky");
    assert("Clear sky"@.len() == 9);
    reveal_strlit("Nearly clear sky");
    assert("Nearly clear sky"@.len() == 16);
    reveal_strlit("Variable cloudiness");
    assert("Variable cloudiness"@.len() == 19);
    reveal_strlit("Halfclear sky");
    assert("Halfclear sky"@.len() == 13);
    reveal_strlit("Cloudy sky");
    assert("Cloudy sky"@.len() == 10);
    reveal_strlit("Overcast");
    assert("Overcast"@.len() == 8);
    reveal_strlit("Fog");
    assert("Fog"@.len() == 3);
    reveal_strlit("Light rain showers");
    assert("Light rain showers"@.len() == 18);
    reveal_strlit("Moderate rain showers");
    assert("Moderate rain showers"@.len() == 21);
    reveal_strlit("Heavy rain showers");
    assert("Heavy rain showers"@.len() == 18);
    reveal_strlit("Thunderstorm");
    assert("Thunderstorm"@.len() == 12);
    reveal_strlit("Light sleet showers");
    assert("Light sleet showers"@.len() == 19);
    reveal_strlit("Moderate sleet showers");
    assert("Moderate sleet showers"@.len() == 22);
    reveal_strlit("Heavy sleet showers");
    assert("Heavy sleet showers"@.len() == 19);
    reveal_strlit("Light snow showers");
    assert("Light snow showers"@.len() == 18);
    reveal_strlit("Moderate snow showers");
    assert("Moderate snow showers"@.len() == 21);
    reveal_strlit("Heavy snow showers");
    assert("Heavy snow showers"@.len() == 18);
    reveal_strlit("Light rain");
    assert("Light rain"@.len() == 10);
    reveal_strlit("Moderate rain");
    assert("Moderate rain"@.len() == 13);
    reveal_strlit("Heavy rain");
    assert("Heavy rain"@.len() == 10);
    reveal_strlit("Thunder");
    assert("Thunder"@.len() == 7);
    reveal_strlit("Light sleet");
    assert("Light sleet"@.len() == 11);
    reveal_strlit("Moderate sleet");
    assert("Moderate sleet"@.len() == 14);
    reveal_strlit("Heavy sleet");
    assert("Heavy sleet"@.len() == 11);
    reveal_strlit("Light snowfall");
    assert("Light snowfall"@.len() == 14);
    reveal_strlit("Moderate snowfall");
    assert("Moderate snowfall"@.len() == 17);
    reveal_strlit("Heavy snowfall");
    assert("Heavy snowfall"@.len() == 14);
    reveal_strlit("Unknown");
    assert("Unknown"@.len() == 7);
    if code == 1 {
    } else if code == 2 {
    } else if code == 3 {
    } else if code == 4 {
    } else if code == 5 {
    } else if code == 6 {
    } else if code == 7 {
    } else if code == 8 {
    } else if code == 9 {
    } else if code == 10 {
        assert("Light rain showers"@[0] != "Heavy rain showers"@[0]);
    } else if code == 11 {
    } else if code == 12 {
        assert("Variable cloudiness"@[0] != "Light sleet showers"@[0]);
    } else if code == 13 {
    } else if code == 14 {
        assert("Variable cloudiness"@[0] != "Heavy sleet showers"@[0]);
        assert("Light sleet showers"@[0] != "Heavy sleet showers"@[0]);
    } else if code == 15 {
        assert("Light rain showers"@[6] != "Light snow showers"@[6]);
        assert("Heavy rain showers"@[0] != "Light snow showers"@[0]);
    } else if code == 16 {
        assert("Moderate rain showers"@[9] != "Moderate snow showers"@[9]);
    } else if code == 17 {
        assert("Light rain showers"@[0] != "Heavy snow showers"@[0]);
        assert("Heavy rain showers"@[6] != "Heavy snow showers"@[6]);
        assert("Light snow showers"@[0] != "Heavy snow showers"@[0]);
    } else if code == 18 {
        assert("Cloudy sky"@[0] != "Light rain"@[0]);
    } else if code == 19 {
        assert("Halfclear sky"@[0] != "Moderate rain"@[0]);
    } else if code == 20 {
        assert("Cloudy sky"@[0] != "Heavy rain"@[0]);
        assert("Light rain"@[0] != "Heavy rain"@[0]);
    } else if code == 21 {
        assert("Unknown"@[0] != "Thunder"@[0]);
    } else if code == 22 {
    } else if code == 23 {
    } else if code == 24 {
        assert("Light sleet"@[0] != "Heavy sleet"@[0]);
    } else if code == 25 {
        assert("Moderate sleet"@[0] != "Light snowfall"@[0]);
    } else if code == 26 {
    } else if code == 27 {
        assert("Moderate sleet"@[0] != "Heavy snowfall"@[0]);
        assert("Light snowfall"@[0] != "Heavy snowfall"@[0]);
    }
}

/// Distinct codes from 1 to 27 have distinct descriptions.
pub proof fn lemma_weather_symbols_distinct(a: u32, b: u32)
    requires
        1 <= a <= 27,
        1 <= b <= 27,
        a != b,
    ensures
        symbol_name(a) != symbol_name(b),
{
    lemma_weather_symbol_table(a);
    lemma_weather_symbol_table(b);
}

/// Maps a weather symbol reading (a code 1 to 27) to a short description; the
/// reading is converted to an integer as `code as u32` does.
pub fn weather_symbol(code: u32) -> (r: &'static str)
    ensures
        r@ == symbol_name(to_u32_saturating(code)),
{
    match f32_to_u32(code) {
        1 => "Clear sky",
        2 => "Nearly clear sky",
        3 => "Variable cloudiness",
        4 => "Halfclear sky",
        5 => "Cloudy sky",
        6 => "Overcast",
        7 => "Fog",
        8 => "Light rain showers",
        9 => "Moderate rain showers",
        10 => "Heavy rain showers",
        11 => "Thunderstorm",
        12 => "Light sleet showers",
        13 => "Moderate sleet showers",
        14 => "Heavy sleet showers",
        15 => "Light snow showers",
        16 => "Moderate snow showers",
        17 => "Heavy snow showers",
        18 => "Light rain",
        19 => "Moderate rain",
        20 => "Heavy rain",
        21 => "Thunder",
        22 => "Light sleet",
        23 => "Moderate sleet",
        24 => "Heavy sleet",
        25 => "Light snowfall",
        26 => "Moderate snowfall",
        27 => "Heavy snowfall",
        _ => "Unknown",
    }
}

/// Which coordinate of a request is out of range.
#[derive(Debug, Clone, Copy, PartialEq, Eq, Structural)]
pub enum CoordinateError {
    Latitude,
    Longitude,
}

/// Whether the reading `b` is a finite number of degrees in `-limit..=limit`.
pub open spec fn within_degrees(b: u32, limit: nat) -> bool {
    is_finite(b) && units(b) <= limit * one()
}

/// Checks a requested position: the latitude must be a finite value in
/// `-90..=90`, then the longitude a finite value in `-180..=180`.
pub fn validate_coords(lat: u32, lon: u32) -> (r: Result<(), CoordinateError>)
    ensures
        r == (if !within_degrees(lat, 90) {
            Err(CoordinateError::Latitude)
        } else if !within_degrees(lon, 180) {
            Err(CoordinateError::Longitude)
        } else {
            Ok(())
        }),
{
    proof {
        lemma_pow2_adds(17, 132);
        lemma_pow2_adds(17, 133);
        lemma_pow2_adds(1, 149);
        lemma2_to64();
        assert(units(0x42b4_0000) == 0xb4_0000 * pow2(132));
        assert(units(0x4334_0000) == 0xb4_0000 * pow2(133));
        assert(0xb4_0000 * pow2(132) == 90 * one()) by (nonlinear_arith)
            requires
                pow2(149) == pow2(17) * pow2(132),
                pow2(17) == 0x2_0000,
                one() == pow2(149),
        ;
        assert(0xb4_0000 * pow2(133) == 180 * one()) by (nonlinear_arith)
            requires
                pow2(150) == pow2(17) * pow2(133),
                pow2(150) == pow2(1) * pow2(149),
                pow2(17) == 0x2_0000,
                pow2(1) == 2,
                one() == pow2(149),
        ;
    }
    if !magnitude_at_most(lat, 0x42b4_0000) {
        return Err(CoordinateError::Latitude);
    }
    if !magnitude_at_most(lon, 0x4334_0000) {
        return Err(CoordinateError::Longitude);
    }
    Ok(())
}

/// The explanation of a rejected coordinate, given the text of its value.
pub open spec fn coordinate_message(which: CoordinateError, shown: Seq<char>) -> Seq<char> {
    match which {
        CoordinateError::Latitude => "latitude "@ + shown + " is out of range (expected -90..=90)"@,
        CoordinateError::Longitude => "longitude "@ + shown + " is out of range (expected -180..=180)"@,
    }
}

/// The error for a rejected coordinate whose value reads `shown`.
pub fn coordinate_error(which: CoordinateError, shown: &str) -> (r: Error)
    ensures
        r matches Error::InvalidCoordinate(m) && m@ == coordinate_message(which, shown@),
{
    let mut v: Vec<char> = Vec::new();
    match which {
        CoordinateError::Latitude => {
            push_str(&mut v, "latitude ");
            push_str(&mut v, shown);
            push_str(&mut v, " is out of range (expected -90..=90)");
        },
        CoordinateError::Longitude => {
            push_str(&mut v, "longitude ");
            push_str(&mut v, shown);
            push_str(&mut v, " is out of range (expected -180..=180)");
        },
    }
    Error::InvalidCoordinate(string_from_chars(v.as_slice()))
}

/// The address of the point forecast for a position, given the texts of its
/// longitude and latitude.
pub open spec fn spec_forecast_url(lat: Seq<char>, lon: Seq<char>) -> Seq<char> {
    "https://opendata-download-metfcst.smhi.se/api/category/pmp3g/version/2/geotype/point/lon/"@
        + lon + "/lat/"@ + lat + "/data.json"@
}

/// The address of the point forecast for a position.
pub fn forecast_url(lat: &str, lon: &str) -> (r: String)
    ensures
        r@ == spec_forecast_url(lat@, lon@),
{
    let mut v: Vec<char> = Vec::new();
    push_str(
        &mut v,
        "https://opendata-download-metfcst.smhi.se/api/category/pmp3g/version/2/geotype/point/lon/",
    );
    push_str(&mut v, lon);
    push_str(&mut v, "/lat/");
    push_str(&mut v, lat);
    push_str(&mut v, "/data.json");
    string_from_chars(v.as_slice())
}

/// What a forecast request for the position (`lat`, `lon`) decides before
/// anything is fetched: a position out of range is refused with the
/// explanation of its first bad coordinate, whose value reads `lat_text` or
/// `lon_text`; otherwise the address of its point forecast is given. A
/// refused position yields no address, so nothing is requested for it.
pub fn plan_forecast_request(lat: u32, lon: u32, lat_text: &str, lon_text: &str) -> (r: Result<String, Error>)
    ensures
        !within_degrees(lat, 90) ==> (r matches Err(Error::InvalidCoordinate(m)) && m@
            == coordinate_message(CoordinateError::Latitude, lat_text@)),
        within_degrees(lat, 90) && !within_degrees(lon, 180) ==> (r matches Err(
            Error::InvalidCoordinate(m),
        ) && m@ == coordinate_message(CoordinateError::Longitude, lon_text@)),
        within_degrees(lat, 90) && within_degrees(lon, 180) ==> (r matches Ok(url) && url@
            == spec_forecast_url(lat_text@, lon_text@)),
{
    match validate_coords(lat, lon) {
        Err(CoordinateError::Latitude) => Err(coordinate_error(CoordinateError::Latitude, lat_text)),
        Err(CoordinateError::Longitude) => Err(coordinate_error(CoordinateError::Longitude, lon_text)),
        Ok(()) => Ok(forecast_url(lat_text, lon_text)),
    }
}

} // verus!
