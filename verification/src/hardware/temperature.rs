//! Temperature units and the temperature monitor's settings.
use vstd::prelude::*;
use crate::json::{self, JsonValue};
use crate::config;
use crate::text;
use super::HardwareError;

verus! {

/// The unit temperatures are reported in.
#[derive(Debug, Clone, Copy, PartialEq, Eq)]
pub enum TemperatureUnit {
    Celsius,
    Fahrenheit,
}

/// The unit a name selects: Fahrenheit for `F` in any case, else Celsius.
pub open spec fn unit_of(upper: Seq<char>) -> TemperatureUnit {
    if upper == "F"@ {
        TemperatureUnit::Fahrenheit
    } else {
        TemperatureUnit::Celsius
    }
}

impl TemperatureUnit {
    /// The unit a name selects, compared in upper case.
    pub fn from_str(s: &str) -> (r: TemperatureUnit)
        ensures
            r == unit_of(text::uppercase(s@)),
    {
        let up = text::to_uppercase(s);
        if text::str_eq(up.as_str(), "F") {
            TemperatureUnit::Fahrenheit
        } else {
            TemperatureUnit::Celsius
        }
    }
}

/// Reports temperatures in a configured unit.
pub struct TemperatureMonitor {
    unit: TemperatureUnit,
}

/// The unit the configuration selects: `system.temperature_unit` when it is a
/// string, else Celsius (the unit that `C` names).
pub open spec fn configured_unit(config: json::Json) -> TemperatureUnit {
    match json::json_as_str(config::system_setting(config, "temperature_unit"@)) {
        Some(s) => unit_of(text::uppercase(s)),
        None => TemperatureUnit::Celsius,
    }
}

impl TemperatureMonitor {
    pub closed spec fn unit_view(&self) -> TemperatureUnit {
        self.unit
    }

    /// A monitor in the unit the configuration selects. It always succeeds.
    pub fn new(config: &JsonValue) -> (r: Result<TemperatureMonitor, HardwareError>)
        ensures
            r matches Ok(m) && m.unit_view() == configured_unit(config@),
    {
        let unit = match config::get_system_setting(config, "temperature_unit") {
            Some(v) => match v.as_str() {
                Some(s) => TemperatureUnit::from_str(s),
                None => TemperatureUnit::Celsius,
            },
            None => TemperatureUnit::Celsius,
        };
        Ok(TemperatureMonitor { unit })
    }

    pub fn get_unit(&self) -> (r: TemperatureUnit)
        ensures
            r == self.unit_view(),
    {
        self.unit
    }

    pub fn set_unit(&mut self, unit: TemperatureUnit)
        ensures
            final(self).unit_view() == unit,
    {
        self.unit = unit;
    }
}

/// The thermal zone's reading: its text without surrounding white space, read
/// as a signed decimal number of millidegrees Celsius.
pub open spec fn millidegrees_of(content: Seq<char>) -> Option<i32> {
    match text::signed_decimal(text::trimmed(content)) {
        Some(n) => if i32::MIN <= n <= i32::MAX { Some(n as i32) } else { None },
        None => None,
    }
}

/// Reads the thermal zone's text as millidegrees Celsius.
pub fn parse_millidegrees(content: &str) -> (r: Option<i32>)
    ensures
        r == millidegrees_of(content@),
{
    text::parse_i32(text::trim(content))
}

/// The temperature in the text `vcgencmd measure_temp` prints, such as
/// `temp=45.0'C`: the text between `temp=` and `'C` once surrounding white
/// space is removed.
pub open spec fn gpu_temperature_text_of(output: Seq<char>) -> Option<Seq<char>> {
    let t = text::trimmed(output);
    let p = "temp="@;
    let q = "'C"@;
    if p.len() <= t.len() && t.take(p.len() as int) == p {
        let rest = t.skip(p.len() as int);
        if q.len() <= rest.len() && rest.skip(rest.len() - q.len()) == q {
            Some(rest.take(rest.len() - q.len()))
        } else {
            None
        }
    } else {
        None
    }
}

/// The temperature text in the output of `vcgencmd measure_temp`.
pub fn gpu_temperature_text(output: &str) -> (r: Option<String>)
    ensures
        match r {
            Some(s) => gpu_temperature_text_of(output@) == Some(s@),
            None => gpu_temperature_text_of(output@) is None,
        },
{
    let t = text::trim(output);
    match text::strip_prefix(t, "temp=") {
        Some(rest) => match text::strip_suffix(rest, "'C") {
            Some(v) => Some(String::from_str(v)),
            None => None,
        },
        None => None,
    }
}

/// The monitor's unit is the unit that `TemperatureUnit::from_str` gives for
/// the configured name (`F` in any case is Fahrenheit), and Celsius when no
/// name is configured; two names that upper-case alike select the same unit.
pub proof fn law_configured_unit(config: json::Json, other: json::Json)
    ensures
        match json::json_as_str(config::system_setting(config, "temperature_unit"@)) {
            Some(s) => configured_unit(config) == unit_of(text::uppercase(s))
                && (text::uppercase(s) == "F"@ <==> configured_unit(config) == TemperatureUnit::Fahrenheit),
            None => configured_unit(config) == TemperatureUnit::Celsius,
        },
        (json::json_as_str(config::system_setting(config, "temperature_unit"@)) matches Some(s1)
            && json::json_as_str(config::system_setting(other, "temperature_unit"@)) matches Some(s2)
            && text::uppercase(s1) == text::uppercase(s2))
            ==> configured_unit(config) == configured_unit(other),
{
}

} // verus!
