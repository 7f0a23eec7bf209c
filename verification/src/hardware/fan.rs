//! Fan modes, their temperature curves, and the fan settings of the
//! configuration.
use vstd::prelude::*;
use crate::json::{self, JsonValue};
use crate::config;
use crate::text;

verus! {

/// How the fan follows the temperature.
#[derive(Debug, Clone, Copy, PartialEq, Eq)]
pub enum FanMode {
    AlwaysOn,
    Temperature,
    Quiet,
    Performance,
}

/// The mode a configured number selects: 0 always on, 1 temperature, 2 quiet,
/// 3 performance; any other number selects the temperature mode.
pub open spec fn fan_mode_of(mode: u8) -> FanMode {
    if mode == 0 {
        FanMode::AlwaysOn
    } else if mode == 1 {
        FanMode::Temperature
    } else if mode == 2 {
        FanMode::Quiet
    } else if mode == 3 {
        FanMode::Performance
    } else {
        FanMode::Temperature
    }
}

/// The speed curve of a mode: (temperature in degrees Celsius, speed in
/// percent of full speed) points, coolest first.
pub open spec fn curve(mode: FanMode) -> Seq<(u32, u32)> {
    match mode {
        FanMode::AlwaysOn => seq![(0u32, 100u32)],
        FanMode::Temperature => seq![(40u32, 30u32), (50u32, 50u32), (60u32, 70u32), (70u32, 100u32)],
        FanMode::Quiet => seq![(50u32, 30u32), (60u32, 50u32), (70u32, 70u32), (80u32, 100u32)],
        FanMode::Performance => seq![(35u32, 50u32), (45u32, 70u32), (55u32, 85u32), (65u32, 100u32)],
    }
}

impl FanMode {
    /// The mode a configured number selects.
    pub fn from_value(mode: u8) -> (r: FanMode)
        ensures
            r == fan_mode_of(mode),
    {
        match mode {
            0 => FanMode::AlwaysOn,
            1 => FanMode::Temperature,
            2 => FanMode::Quiet,
            3 => FanMode::Performance,
            _ => FanMode::Temperature,
        }
    }

    /// The speed curve of the mode, as (degrees Celsius, percent) points.
    pub fn get_thresholds(&self) -> (r: Vec<(u32, u32)>)
        ensures
            r@ == curve(*self),
    {
        let mut v: Vec<(u32, u32)> = Vec::new();
        match self {
            FanMode::AlwaysOn => {
                v.push((0, 100));
            },
            FanMode::Temperature => {
                v.push((40, 30));
                v.push((50, 50));
                v.push((60, 70));
                v.push((70, 100));
            },
            FanMode::Quiet => {
                v.push((50, 30));
                v.push((60, 50));
                v.push((70, 70));
                v.push((80, 100));
            },
            FanMode::Performance => {
                v.push((35, 50));
                v.push((45, 70));
                v.push((55, 85));
                v.push((65, 100));
            },
        }
        assert(v@ =~= curve(*self));
        v
    }
}

/// Every curve rises: its temperatures strictly increase, its speeds strictly
/// increase, every speed is above zero and at most full speed, and the last
/// point is full speed.
pub proof fn law_curves_rise(mode: FanMode)
    ensures
        curve(mode).len() > 0,
        forall|i: int, j: int| 0 <= i < j < curve(mode).len() ==> #[trigger] curve(mode)[i].0 < #[trigger] curve(mode)[j].0
            && curve(mode)[i].1 < curve(mode)[j].1,
        forall|i: int| 0 <= i < curve(mode).len() ==> 0 < #[trigger] curve(mode)[i].1 <= 100,
        curve(mode).last().1 == 100,
{
}

/// What the fan's LED shows: always lit, always dark, or lit while the fan
/// runs.
#[derive(Debug, Clone, Copy, PartialEq, Eq)]
pub enum FanLedState {
    On,
    Off,
    Follow,
}

/// The LED state a configured value names: `on`, `off`, or `follow` for
/// `follow`, any other value, or none.
pub open spec fn led_state_of(v: json::Json) -> FanLedState {
    match json::json_as_str(v) {
        Some(s) => if s == "on"@ {
            FanLedState::On
        } else if s == "off"@ {
            FanLedState::Off
        } else {
            FanLedState::Follow
        },
        None => FanLedState::Follow,
    }
}

/// Whether the fan's LED is lit: as its state says, and in the `follow`
/// state exactly while the fan runs.
pub fn led_lit(state: FanLedState, fan_running: bool) -> (r: bool)
    ensures
        r == match state {
            FanLedState::On => true,
            FanLedState::Off => false,
            FanLedState::Follow => fan_running,
        },
{
    match state {
        FanLedState::On => true,
        FanLedState::Off => false,
        FanLedState::Follow => fan_running,
    }
}

/// The fan settings of the configuration.
#[derive(Debug, Clone, Copy, PartialEq, Eq)]
pub struct FanConfig {
    pub mode: FanMode,
    /// The GPIO pin that switches the fan, if configured.
    pub pin: Option<u8>,
    /// The GPIO pin of the fan's LED, if configured.
    pub led_pin: Option<u8>,
    /// What the fan's LED shows.
    pub led_state: FanLedState,
}

/// A configured pin number, cut to eight bits as the GPIO call takes it.
pub open spec fn pin_of(v: json::Json) -> Option<u8> {
    match json::json_as_u64(v) {
        Some(n) => Some(n as u8),
        None => None,
    }
}

fn pin_setting(config: &JsonValue, key: &str) -> (r: Option<u8>)
    ensures
        r == pin_of(config::system_setting(config@, key@)),
{
    match config::get_system_setting(config, key) {
        Some(v) => match v.as_u64() {
            Some(n) => Some(n as u8),
            None => None,
        },
        None => None,
    }
}

impl FanConfig {
    /// Reads `gpio_fan_mode` (a number, 1 when absent, cut to eight bits),
    /// `gpio_fan_pin`, `gpio_fan_led_pin` and `gpio_fan_led` (on, off or
    /// follow) from the `system` section.
    pub fn from_config(config: &JsonValue) -> (r: FanConfig)
        ensures
            r.mode == fan_mode_of(match json::json_as_u64(config::system_setting(config@, "gpio_fan_mode"@)) {
                Some(n) => n as u8,
                None => 1u8,
            }),
            r.pin == pin_of(config::system_setting(config@, "gpio_fan_pin"@)),
            r.led_pin == pin_of(config::system_setting(config@, "gpio_fan_led_pin"@)),
            r.led_state == led_state_of(config::system_setting(config@, "gpio_fan_led"@)),
    {
        let led_state = match config::get_system_setting(config, "gpio_fan_led") {
            Some(v) => match v.as_str() {
                Some(st) => if text::str_eq(st, "on") {
                    FanLedState::On
                } else if text::str_eq(st, "off") {
                    FanLedState::Off
                } else {
                    FanLedState::Follow
                },
                None => FanLedState::Follow,
            },
            None => FanLedState::Follow,
        };
        let mode_value: u8 = match config::get_system_setting(config, "gpio_fan_mode") {
            Some(v) => match v.as_u64() {
                Some(n) => n as u8,
                None => 1,
            },
            None => 1,
        };
        FanConfig {
            mode: FanMode::from_value(mode_value),
            pin: pin_setting(config, "gpio_fan_pin"),
            led_pin: pin_setting(config, "gpio_fan_led_pin"),
            led_state,
        }
    }
}

/// The fan mode numbers: 0 is always on, 2 quiet, 3 performance, and every
/// other number (1 included) the temperature mode; the LED states are `on`,
/// `off`, and `follow` for anything else.
pub proof fn law_fan_modes(m: u8, v: json::Json)
    ensures
        (fan_mode_of(m) == FanMode::AlwaysOn) <==> m == 0,
        (fan_mode_of(m) == FanMode::Quiet) <==> m == 2,
        (fan_mode_of(m) == FanMode::Performance) <==> m == 3,
        (fan_mode_of(m) == FanMode::Temperature) <==> (m != 0 && m != 2 && m != 3),
        (led_state_of(v) == FanLedState::On) <==> v == json::Json::Str(seq!['o', 'n']),
        (led_state_of(v) == FanLedState::Off) <==> v == json::Json::Str(seq!['o', 'f', 'f']),
{
    reveal_strlit("on");
    reveal_strlit("off");
    assert(seq!['o', 'n'] =~= "on"@);
    assert(seq!['o', 'f', 'f'] =~= "off"@);
}

} // verus!
