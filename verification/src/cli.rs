//! The command line: its options, how each is checked, and the settings and
//! messages they produce.
use vstd::prelude::*;
use crate::json::{self, Json, JsonNumber, JsonValue};
use crate::text;
use crate::config;

verus! {

/// The options of the `pironman5` command.
pub struct Cli {
    pub command: Option<Commands>,
    pub version: bool,
    pub config: bool,
    pub debug_level: Option<String>,
    pub config_path: Option<String>,
    pub rgb_color: Option<String>,
    pub rgb_brightness: Option<u8>,
    pub rgb_style: Option<String>,
    pub rgb_speed: Option<u8>,
    pub rgb_enable: Option<String>,
    pub rgb_led_count: Option<u32>,
    pub temperature_unit: Option<String>,
    pub gpio_fan_mode: Option<u8>,
    pub gpio_fan_pin: Option<u8>,
    pub gpio_fan_led: Option<String>,
    pub gpio_fan_led_pin: Option<u8>,
    pub oled_enable: Option<String>,
    pub oled_disk: Option<String>,
    pub oled_network_interface: Option<String>,
    pub oled_rotation: Option<u16>,
    pub vibration_switch_pin: Option<u8>,
    pub vibration_switch_pull_up: Option<String>,
    pub oled_sleep_timeout: Option<u32>,
}

/// The service commands.
#[derive(Debug, Clone, Copy, PartialEq, Eq)]
pub enum Commands {
    Start,
    Restart,
    Stop,
}

/// A refused option value.
#[derive(Debug, Clone, Copy, PartialEq, Eq)]
pub enum CliError {
    InvalidRgbColor,
    RgbBrightnessRange,
    RgbSpeedRange,
    InvalidRgbEnable,
    RgbLedCountRange,
    TemperatureUnit,
    GpioFanLedState,
    InvalidOledEnable,
    OledRotation,
    VibrationSwitchPinRange,
    InvalidVibrationSwitchPullUp,
}

impl CliError {
    /// The message printed for the refusal.
    pub fn message(&self) -> (r: &'static str)
        ensures
            r@ == cli_error_message(*self),
    {
        match self {
            CliError::InvalidRgbColor => "Invalid RGB color format. Use hex format without # (e.g. 00aabb)",
            CliError::RgbBrightnessRange => "RGB brightness must be between 0 and 100",
            CliError::RgbSpeedRange => "RGB speed must be between 0 and 100",
            CliError::InvalidRgbEnable => "Invalid value for RGB enable. Use true/false",
            CliError::RgbLedCountRange => "RGB LED count must be greater than 0",
            CliError::TemperatureUnit => "Temperature unit must be C or F",
            CliError::GpioFanLedState => "GPIO fan LED state must be on, off, or follow",
            CliError::InvalidOledEnable => "Invalid value for OLED enable. Use true/false",
            CliError::OledRotation => "OLED rotation must be 0 or 180",
            CliError::VibrationSwitchPinRange => "Vibration switch pin must be between 0 and 40",
            CliError::InvalidVibrationSwitchPullUp => "Invalid value for vibration switch pull up. Use true/false",
        }
    }
}

pub open spec fn cli_error_message(e: CliError) -> Seq<char> {
    match e {
        CliError::InvalidRgbColor => "Invalid RGB color format. Use hex format without # (e.g. 00aabb)"@,
        CliError::RgbBrightnessRange => "RGB brightness must be between 0 and 100"@,
        CliError::RgbSpeedRange => "RGB speed must be between 0 and 100"@,
        CliError::InvalidRgbEnable => "Invalid value for RGB enable. Use true/false"@,
        CliError::RgbLedCountRange => "RGB LED count must be greater than 0"@,
        CliError::TemperatureUnit => "Temperature unit must be C or F"@,
        CliError::GpioFanLedState => "GPIO fan LED state must be on, off, or follow"@,
        CliError::InvalidOledEnable => "Invalid value for OLED enable. Use true/false"@,
        CliError::OledRotation => "OLED rotation must be 0 or 180"@,
        CliError::VibrationSwitchPinRange => "Vibration switch pin must be between 0 and 40"@,
        CliError::InvalidVibrationSwitchPullUp => "Invalid value for vibration switch pull up. Use true/false"@,
    }
}

/// The truth value a word names, compared in lower case.
pub open spec fn bool_word(lower: Seq<char>) -> Option<bool> {
    if lower == "true"@ || lower == "1"@ || lower == "on"@ || lower == "yes"@ {
        Some(true)
    } else if lower == "false"@ || lower == "0"@ || lower == "off"@ || lower == "no"@ {
        Some(false)
    } else {
        None
    }
}

/// Parses a truth value: true, 1, on, yes or false, 0, off, no, in any case.
pub fn parse_bool(s: &str) -> (r: Option<bool>)
    ensures
        r == bool_word(text::lowercase(s@)),
{
    let lower = text::to_lowercase(s);
    let l = lower.as_str();
    if text::str_eq(l, "true") || text::str_eq(l, "1") || text::str_eq(l, "on") || text::str_eq(l, "yes") {
        Some(true)
    } else if text::str_eq(l, "false") || text::str_eq(l, "0") || text::str_eq(l, "off") || text::str_eq(l, "no") {
        Some(false)
    } else {
        None
    }
}

/// A setting an option writes into the `system` section, with the message
/// that announces it.
pub struct ConfigChange {
    pub key: String,
    pub value: JsonValue,
    pub message: String,
}

/// What one option gives: nothing, a setting, or a refusal.
pub enum CliStep {
    Skip,
    Change(ConfigChange),
    Fail(CliError),
}

/// The view of a step.
pub enum Step {
    Skip,
    Change(Seq<char>, Json, Seq<char>),
    Fail(CliError),
}

pub open spec fn step_view(s: CliStep) -> Step {
    match s {
        CliStep::Skip => Step::Skip,
        CliStep::Change(c) => Step::Change(c.key@, c.value@, c.message@),
        CliStep::Fail(e) => Step::Fail(e),
    }
}

pub open spec fn bool_text(b: bool) -> Seq<char> {
    if b { "true"@ } else { "false"@ }
}

pub open spec fn num(n: nat) -> Json {
    Json::Number(JsonNumber::PosInt(n as u64))
}

pub open spec fn opt_view(o: Option<String>) -> Option<Seq<char>> {
    match o {
        Some(s) => Some(s@),
        None => None,
    }
}

pub open spec fn step_debug_level(o: Option<Seq<char>>) -> Step {
    match o {
        None => Step::Skip,
        Some(s) => Step::Change("debug_level"@, Json::Str(text::uppercase(s)), "Set debug level: "@ + text::uppercase(s)),
    }
}

/// The color option: six hexadecimal digits, written with a leading `#`;
/// anything else is refused.
pub open spec fn step_rgb_color(o: Option<Seq<char>>) -> Step {
    match o {
        None => Step::Skip,
        Some(s) => if !(s.len() == 6 && text::all_hex(s)) {
            Step::Fail(CliError::InvalidRgbColor)
        } else {
            Step::Change("rgb_color"@, Json::Str("#"@ + s), "Set RGB color: #"@ + s)
        },
    }
}

pub open spec fn step_percent(o: Option<u8>, key: Seq<char>, label: Seq<char>, err: CliError) -> Step {
    match o {
        None => Step::Skip,
        Some(n) => if n > 100 {
            Step::Fail(err)
        } else {
            Step::Change(key, num(n as nat), label + text::decimal(n as nat))
        },
    }
}

pub open spec fn step_text(o: Option<Seq<char>>, key: Seq<char>, label: Seq<char>) -> Step {
    match o {
        None => Step::Skip,
        Some(s) => Step::Change(key, Json::Str(s), label + s),
    }
}

pub open spec fn step_number(o: Option<nat>, key: Seq<char>, label: Seq<char>) -> Step {
    match o {
        None => Step::Skip,
        Some(n) => Step::Change(key, num(n), label + text::decimal(n)),
    }
}

pub open spec fn step_bool(o: Option<Seq<char>>, key: Seq<char>, label: Seq<char>, err: CliError) -> Step {
    match o {
        None => Step::Skip,
        Some(s) => match bool_word(text::lowercase(s)) {
            Some(b) => Step::Change(key, Json::Bool(b), label + bool_text(b)),
            None => Step::Fail(err),
        },
    }
}

pub open spec fn step_led_count(o: Option<u32>) -> Step {
    match o {
        None => Step::Skip,
        Some(n) => if n < 1 {
            Step::Fail(CliError::RgbLedCountRange)
        } else {
            Step::Change("rgb_led_count"@, num(n as nat), "Set RGB LED count: "@ + text::decimal(n as nat))
        },
    }
}

pub open spec fn step_temperature_unit(o: Option<Seq<char>>) -> Step {
    match o {
        None => Step::Skip,
        Some(s) => if s != "C"@ && s != "F"@ {
            Step::Fail(CliError::TemperatureUnit)
        } else {
            Step::Change("temperature_unit"@, Json::Str(s), "Set temperature unit: "@ + s)
        },
    }
}

pub open spec fn step_fan_led(o: Option<Seq<char>>) -> Step {
    match o {
        None => Step::Skip,
        Some(s) => {
            let l = text::lowercase(s);
            if l != "on"@ && l != "off"@ && l != "follow"@ {
                Step::Fail(CliError::GpioFanLedState)
            } else {
                Step::Change("gpio_fan_led"@, Json::Str(l), "Set GPIO fan LED state: "@ + l)
            }
        },
    }
}

pub open spec fn step_rotation(o: Option<u16>) -> Step {
    match o {
        None => Step::Skip,
        Some(n) => if n != 0 && n != 180 {
            Step::Fail(CliError::OledRotation)
        } else {
            Step::Change("oled_rotation"@, num(n as nat), "Set OLED rotation: "@ + text::decimal(n as nat))
        },
    }
}

pub open spec fn step_vibration_pin(o: Option<u8>) -> Step {
    match o {
        None => Step::Skip,
        Some(n) => if n > 40 {
            Step::Fail(CliError::VibrationSwitchPinRange)
        } else {
            Step::Change("vibration_switch_pin"@, num(n as nat), "Set vibration switch pin: "@ + text::decimal(n as nat))
        },
    }
}

pub open spec fn nat_opt_u8(o: Option<u8>) -> Option<nat> {
    match o {
        Some(n) => Some(n as nat),
        None => None,
    }
}

pub open spec fn nat_opt_u32(o: Option<u32>) -> Option<nat> {
    match o {
        Some(n) => Some(n as nat),
        None => None,
    }
}

/// What each option gives, in the order the options are checked.
pub open spec fn cli_steps(cli: Cli) -> Seq<Step> {
    seq![
        step_debug_level(opt_view(cli.debug_level)),
        step_rgb_color(opt_view(cli.rgb_color)),
        step_percent(cli.rgb_brightness, "rgb_brightness"@, "Set RGB brightness: "@, CliError::RgbBrightnessRange),
        step_text(opt_view(cli.rgb_style), "rgb_style"@, "Set RGB style: "@),
        step_percent(cli.rgb_speed, "rgb_speed"@, "Set RGB speed: "@, CliError::RgbSpeedRange),
        step_bool(opt_view(cli.rgb_enable), "rgb_enable"@, "Set RGB enable: "@, CliError::InvalidRgbEnable),
        step_led_count(cli.rgb_led_count),
        step_temperature_unit(opt_view(cli.temperature_unit)),
        step_number(nat_opt_u8(cli.gpio_fan_mode), "gpio_fan_mode"@, "Set GPIO fan mode: "@),
        step_number(nat_opt_u8(cli.gpio_fan_pin), "gpio_fan_pin"@, "Set GPIO fan pin: "@),
        step_fan_led(opt_view(cli.gpio_fan_led)),
        step_number(nat_opt_u8(cli.gpio_fan_led_pin), "gpio_fan_led_pin"@, "Set GPIO fan LED pin: "@),
        step_bool(opt_view(cli.oled_enable), "oled_enable"@, "Set OLED enable: "@, CliError::InvalidOledEnable),
        step_text(opt_view(cli.oled_disk), "oled_disk"@, "Set OLED disk: "@),
        step_text(opt_view(cli.oled_network_interface), "oled_network_interface"@, "Set OLED network interface: "@),
        step_rotation(cli.oled_rotation),
        step_vibration_pin(cli.vibration_switch_pin),
        step_bool(opt_view(cli.vibration_switch_pull_up), "vibration_switch_pull_up"@, "Set vibration switch pull up: "@, CliError::InvalidVibrationSwitchPullUp),
        step_number(nat_opt_u32(cli.oled_sleep_timeout), "oled_sleep_timeout"@, "Set OLED sleep timeout: "@),
    ]
}

/// The settings the steps give before the first refusal, and that refusal.
pub open spec fn run_steps(st: Seq<Step>) -> (Seq<(Seq<char>, Json, Seq<char>)>, Option<CliError>)
    decreases st.len(),
{
    if st.len() == 0 {
        (Seq::empty(), None)
    } else {
        let prev = run_steps(st.drop_last());
        if prev.1 is Some {
            prev
        } else {
            match st.last() {
                Step::Skip => prev,
                Step::Change(k, v, m) => (prev.0.push((k, v, m)), None),
                Step::Fail(e) => (prev.0, Some(e)),
            }
        }
    }
}

fn set_step(key: &str, value: JsonValue, label: &str, shown: &str) -> (r: CliStep)
    ensures
        step_view(r) == Step::Change(key@, value@, label@ + shown@),
{
    let mut m = String::from_str(label);
    m.append(shown);
    CliStep::Change(ConfigChange { key: String::from_str(key), value, message: m })
}

fn bool_str(b: bool) -> (r: &'static str)
    ensures
        r@ == bool_text(b),
{
    if b { "true" } else { "false" }
}

fn step_of_debug_level(o: &Option<String>) -> (r: CliStep)
    ensures
        step_view(r) == step_debug_level(opt_view(*o)),
{
    match o {
        None => CliStep::Skip,
        Some(s) => {
            let up = text::to_uppercase(s.as_str());
            set_step("debug_level", JsonValue::from_str_value(up.as_str()), "Set debug level: ", up.as_str())
        },
    }
}

fn step_of_rgb_color(o: &Option<String>) -> (r: CliStep)
    ensures
        step_view(r) == step_rgb_color(opt_view(*o)),
{
    match o {
        None => CliStep::Skip,
        Some(s) => {
            if !(s.as_str().unicode_len() == 6 && text::all_hex_digits(s.as_str())) {
                CliStep::Fail(CliError::InvalidRgbColor)
            } else {
                let mut v = String::from_str("#");
                v.append(s.as_str());
                let mut m = String::from_str("Set RGB color: #");
                m.append(s.as_str());
                CliStep::Change(ConfigChange {
                    key: String::from_str("rgb_color"),
                    value: JsonValue::Str(v),
                    message: m,
                })
            }
        },
    }
}

fn step_of_percent(o: Option<u8>, key: &str, label: &str, err: CliError) -> (r: CliStep)
    ensures
        step_view(r) == step_percent(o, key@, label@, err),
{
    match o {
        None => CliStep::Skip,
        Some(n) => {
            if n > 100 {
                CliStep::Fail(err)
            } else {
                let d = text::decimal_string(n as u64);
                set_step(key, JsonValue::from_u64(n as u64), label, d.as_str())
            }
        },
    }
}

fn step_of_text(o: &Option<String>, key: &str, label: &str) -> (r: CliStep)
    ensures
        step_view(r) == step_text(opt_view(*o), key@, label@),
{
    match o {
        None => CliStep::Skip,
        Some(s) => set_step(key, JsonValue::from_str_value(s.as_str()), label, s.as_str()),
    }
}

fn step_of_number(o: Option<u64>, key: &str, label: &str) -> (r: CliStep)
    ensures
        step_view(r) == step_number(
            match o { Some(n) => Some(n as nat), None => None },
            key@,
            label@,
        ),
{
    match o {
        None => CliStep::Skip,
        Some(n) => {
            let d = text::decimal_string(n);
            set_step(key, JsonValue::from_u64(n), label, d.as_str())
        },
    }
}

fn step_of_bool(o: &Option<String>, key: &str, label: &str, err: CliError) -> (r: CliStep)
    ensures
        step_view(r) == step_bool(opt_view(*o), key@, label@, err),
{
    match o {
        None => CliStep::Skip,
        Some(s) => match parse_bool(s.as_str()) {
            Some(b) => set_step(key, JsonValue::from_bool(b), label, bool_str(b)),
            None => CliStep::Fail(err),
        },
    }
}

fn step_of_led_count(o: Option<u32>) -> (r: CliStep)
    ensures
        step_view(r) == step_led_count(o),
{
    match o {
        None => CliStep::Skip,
        Some(n) => {
            if n < 1 {
                CliStep::Fail(CliError::RgbLedCountRange)
            } else {
                let d = text::decimal_string(n as u64);
                set_step("rgb_led_count", JsonValue::from_u64(n as u64), "Set RGB LED count: ", d.as_str())
            }
        },
    }
}

fn step_of_temperature_unit(o: &Option<String>) -> (r: CliStep)
    ensures
        step_view(r) == step_temperature_unit(opt_view(*o)),
{
    match o {
        None => CliStep::Skip,
        Some(s) => {
            if !text::str_eq(s.as_str(), "C") && !text::str_eq(s.as_str(), "F") {
                CliStep::Fail(CliError::TemperatureUnit)
            } else {
                set_step("temperature_unit", JsonValue::from_str_value(s.as_str()), "Set temperature unit: ", s.as_str())
            }
        },
    }
}

fn step_of_fan_led(o: &Option<String>) -> (r: CliStep)
    ensures
        step_view(r) == step_fan_led(opt_view(*o)),
{
    match o {
        None => CliStep::Skip,
        Some(s) => {
            let lower = text::to_lowercase(s.as_str());
            let l = lower.as_str();
            if !text::str_eq(l, "on") && !text::str_eq(l, "off") && !text::str_eq(l, "follow") {
                CliStep::Fail(CliError::GpioFanLedState)
            } else {
                set_step("gpio_fan_led", JsonValue::from_str_value(l), "Set GPIO fan LED state: ", l)
            }
        },
    }
}

fn step_of_rotation(o: Option<u16>) -> (r: CliStep)
    ensures
        step_view(r) == step_rotation(o),
{
    match o {
        None => CliStep::Skip,
        Some(n) => {
            if n != 0 && n != 180 {
                CliStep::Fail(CliError::OledRotation)
            } else {
                let d = text::decimal_string(n as u64);
                set_step("oled_rotation", JsonValue::from_u64(n as u64), "Set OLED rotation: ", d.as_str())
            }
        },
    }
}

fn step_of_vibration_pin(o: Option<u8>) -> (r: CliStep)
    ensures
        step_view(r) == step_vibration_pin(o),
{
    match o {
        None => CliStep::Skip,
        Some(n) => {
            if n > 40 {
                CliStep::Fail(CliError::VibrationSwitchPinRange)
            } else {
                let d = text::decimal_string(n as u64);
                set_step("vibration_switch_pin", JsonValue::from_u64(n as u64), "Set vibration switch pin: ", d.as_str())
            }
        },
    }
}

fn widen_u8(o: Option<u8>) -> (r: Option<u64>)
    ensures
        match r { Some(n) => Some(n as nat), None => None } == nat_opt_u8(o),
{
    match o {
        Some(n) => Some(n as u64),
        None => None,
    }
}

fn widen_u32(o: Option<u32>) -> (r: Option<u64>)
    ensures
        match r { Some(n) => Some(n as nat), None => None } == nat_opt_u32(o),
{
    match o {
        Some(n) => Some(n as u64),
        None => None,
    }
}

/// What each option gives, in the order the options are checked.
pub fn collect_steps(cli: &Cli) -> (r: Vec<CliStep>)
    ensures
        r@.map_values(|s: CliStep| step_view(s)) == cli_steps(*cli),
{
    let mut v: Vec<CliStep> = Vec::new();
    v.push(step_of_debug_level(&cli.debug_level));
    v.push(step_of_rgb_color(&cli.rgb_color));
    v.push(step_of_percent(cli.rgb_brightness, "rgb_brightness", "Set RGB brightness: ", CliError::RgbBrightnessRange));
    v.push(step_of_text(&cli.rgb_style, "rgb_style", "Set RGB style: "));
    v.push(step_of_percent(cli.rgb_speed, "rgb_speed", "Set RGB speed: ", CliError::RgbSpeedRange));
    v.push(step_of_bool(&cli.rgb_enable, "rgb_enable", "Set RGB enable: ", CliError::InvalidRgbEnable));
    v.push(step_of_led_count(cli.rgb_led_count));
    v.push(step_of_temperature_unit(&cli.temperature_unit));
    v.push(step_of_number(widen_u8(cli.gpio_fan_mode), "gpio_fan_mode", "Set GPIO fan mode: "));
    v.push(step_of_number(widen_u8(cli.gpio_fan_pin), "gpio_fan_pin", "Set GPIO fan pin: "));
    v.push(step_of_fan_led(&cli.gpio_fan_led));
    v.push(step_of_number(widen_u8(cli.gpio_fan_led_pin), "gpio_fan_led_pin", "Set GPIO fan LED pin: "));
    v.push(step_of_bool(&cli.oled_enable, "oled_enable", "Set OLED enable: ", CliError::InvalidOledEnable));
    v.push(step_of_text(&cli.oled_disk, "oled_disk", "Set OLED disk: "));
    v.push(step_of_text(&cli.oled_network_interface, "oled_network_interface", "Set OLED network interface: "));
    v.push(step_of_rotation(cli.oled_rotation));
    v.push(step_of_vibration_pin(cli.vibration_switch_pin));
    v.push(step_of_bool(&cli.vibration_switch_pull_up, "vibration_switch_pull_up", "Set vibration switch pull up: ", CliError::InvalidVibrationSwitchPullUp));
    v.push(step_of_number(widen_u32(cli.oled_sleep_timeout), "oled_sleep_timeout", "Set OLED sleep timeout: "));
    assert(v@.map_values(|s: CliStep| step_view(s)) =~= cli_steps(*cli));
    v
}

pub open spec fn change_view(c: ConfigChange) -> (Seq<char>, Json, Seq<char>) {
    (c.key@, c.value@, c.message@)
}

/// The settings the options give before the first refused one, and the
/// refusal if there is one.
pub fn collect_changes(cli: &Cli) -> (r: (Vec<ConfigChange>, Option<CliError>))
    ensures
        (r.0@.map_values(|c: ConfigChange| change_view(c)), r.1) == run_steps(cli_steps(*cli)),
{
    let steps = collect_steps(cli);
    let ghost sv = steps@.map_values(|s: CliStep| step_view(s));
    let mut changes: Vec<ConfigChange> = Vec::new();
    let mut i: usize = 0;
    let n = steps.len();
    let mut steps = steps;
    proof {
        assert(sv.take(0) =~= Seq::<Step>::empty());
        assert(changes@.map_values(|c: ConfigChange| change_view(c)) =~= Seq::<(Seq<char>, Json, Seq<char>)>::empty());
    }
    while i < n
        invariant
            n == sv.len(),
            i <= n,
            sv == cli_steps(*cli),
            steps@.len() == n - i,
            forall|j: int| 0 <= j < n - i ==> step_view(#[trigger] steps@[j]) == sv[i + j],
            run_steps(sv.take(i as int)) == (changes@.map_values(|c: ConfigChange| change_view(c)), None::<CliError>),
        decreases n - i,
    {
        let ghost before = changes@;
        proof {
            assert(sv.take(i + 1).drop_last() =~= sv.take(i as int));
            assert(sv.take(i + 1).last() == sv[i as int]);
        }
        let s = steps.remove(0);
        assert(step_view(s) == sv[i as int]);
        match s {
            CliStep::Skip => {},
            CliStep::Change(c) => {
                changes.push(c);
                proof {
                    assert(changes@.map_values(|c: ConfigChange| change_view(c)) =~= before.map_values(|c: ConfigChange| change_view(c)).push(change_view(changes@[before.len() as int])));
                }
            },
            CliStep::Fail(e) => {
                proof {
                    lemma_run_steps_failed(sv, i as int);
                }
                return (changes, Some(e));
            },
        }
        i = i + 1;
    }
    proof {
        assert(sv.take(n as int) =~= sv);
    }
    (changes, None)
}

/// Once a step fails, the later steps change nothing.
proof fn lemma_run_steps_failed(st: Seq<Step>, i: int)
    requires
        0 <= i < st.len(),
        run_steps(st.take(i)).1 is None,
        st[i] is Fail,
    ensures
        run_steps(st) == (run_steps(st.take(i)).0, Some(st[i]->Fail_0)),
    decreases st.len(),
{
    if i == st.len() - 1 {
        assert(st.drop_last() =~= st.take(i));
    } else {
        assert(st.drop_last().take(i) =~= st.take(i));
        assert(st.drop_last()[i] == st[i]);
        lemma_run_steps_failed(st.drop_last(), i);
    }
}

} // verus!

verus! {

/// The `system` object that a list of settings writes, in order, each setting
/// replacing an earlier one with its key.
pub open spec fn changes_object(cs: Seq<(Seq<char>, Json, Seq<char>)>) -> Json {
    Json::Object(json::overwrite_entries(Seq::empty(), pairs_of(cs)))
}

/// The (key, value) pairs of a list of settings.
pub open spec fn pairs_of(cs: Seq<(Seq<char>, Json, Seq<char>)>) -> json::Entries {
    cs.map_values(|c: (Seq<char>, Json, Seq<char>)| (c.0, c.1))
}

/// `{"system": {...}}` holding the settings.
pub fn changes_to_config(changes: &Vec<ConfigChange>) -> (r: JsonValue)
    ensures
        r@ == Json::Object(seq![("system"@, changes_object(changes@.map_values(|c: ConfigChange| change_view(c))))]),
{
    let ghost cs = changes@.map_values(|c: ConfigChange| change_view(c));
    let ghost pairs = pairs_of(cs);
    let mut sys = JsonValue::new_object();
    let mut i: usize = 0;
    proof {
        assert(pairs.take(0) =~= Seq::<(Seq<char>, Json)>::empty());
    }
    while i < changes.len()
        invariant
            i <= changes.len(),
            cs == changes@.map_values(|c: ConfigChange| change_view(c)),
            pairs == pairs_of(cs),
            sys@ == Json::Object(json::overwrite_entries(Seq::empty(), pairs.take(i as int))),
        decreases changes.len() - i,
    {
        proof {
            assert(pairs.take(i + 1).drop_last() =~= pairs.take(i as int));
            assert(pairs.take(i + 1).last() == pairs[i as int]);
        }
        let v = changes[i].value.duplicate();
        sys.set_field(changes[i].key.as_str(), v);
        i = i + 1;
    }
    proof {
        assert(pairs.take(changes.len() as int) =~= pairs);
    }
    config::wrap_system(sys)
}

/// The path of the configuration file when none is given.
pub open spec fn default_config_path() -> Seq<char> {
    "/opt/pironman5/config.json"@
}

/// What the command line asks for once its options are checked.
pub struct CliRun {
    /// The configuration file.
    pub config_path: String,
    /// The settings given, up to the first refused option.
    pub changes: Vec<ConfigChange>,
    /// The first refused option, if any; nothing is written then.
    pub error: Option<CliError>,
    /// The document to write into the configuration file, when there are
    /// settings and none was refused.
    pub update: Option<JsonValue>,
    /// The service command.
    pub command: Option<Commands>,
    /// Whether to print the usage text: no command and no setting.
    pub show_help: bool,
}

/// What the command line asks for.
pub enum CliAction {
    ShowVersion,
    ShowConfig(String),
    Configure(CliRun),
}

/// Decides what the command line asks for: the version, the configuration,
/// or settings to write followed by a service command.
pub fn plan(cli: &Cli) -> (r: CliAction)
    ensures
        cli.version ==> r is ShowVersion,
        !cli.version ==> {
            let path = match cli.config_path {
                Some(p) => p@,
                None => default_config_path(),
            };
            let (cs, err) = run_steps(cli_steps(*cli));
            if cli.config {
                r matches CliAction::ShowConfig(p) && p@ == path
            } else {
                r matches CliAction::Configure(run) && {
                    &&& run.config_path@ == path
                    &&& run.changes@.map_values(|c: ConfigChange| change_view(c)) == cs
                    &&& run.error == err
                    &&& run.command == cli.command
                    &&& match run.update {
                        Some(u) => err is None && cs.len() > 0
                            && u@ == Json::Object(seq![("system"@, changes_object(cs))]),
                        None => err is Some || cs.len() == 0,
                    }
                    &&& run.show_help == (err is None && cli.command is None && cs.len() == 0)
                }
            }
        },
{
    if cli.version {
        return CliAction::ShowVersion;
    }
    let config_path = match &cli.config_path {
        Some(p) => p.clone(),
        None => String::from_str("/opt/pironman5/config.json"),
    };
    if cli.config {
        return CliAction::ShowConfig(config_path);
    }
    let (changes, error) = collect_changes(cli);
    let update = if error.is_none() && changes.len() > 0 {
        Some(changes_to_config(&changes))
    } else {
        None
    };
    let show_help = error.is_none() && cli.command.is_none() && changes.len() == 0;
    CliAction::Configure(CliRun { config_path, changes, error, update, command: cli.command, show_help })
}

} // verus!

verus! {

/// What the checks promise of a setting that is written: brightness and speed
/// at most 100, at least one LED, a rotation of 0 or 180, a vibration switch
/// pin at most 40, a temperature unit of C or F, a fan LED state of on, off or
/// follow, and a color of `#` and six hexadecimal digits.
pub open spec fn setting_valid(k: Seq<char>, v: Json) -> bool {
    &&& k == "rgb_brightness"@ ==> (v matches Json::Number(JsonNumber::PosInt(n)) && n <= 100)
    &&& k == "rgb_speed"@ ==> (v matches Json::Number(JsonNumber::PosInt(n)) && n <= 100)
    &&& k == "rgb_led_count"@ ==> (v matches Json::Number(JsonNumber::PosInt(n)) && n >= 1)
    &&& k == "oled_rotation"@ ==> (v matches Json::Number(JsonNumber::PosInt(n)) && (n == 0 || n == 180))
    &&& k == "vibration_switch_pin"@ ==> (v matches Json::Number(JsonNumber::PosInt(n)) && n <= 40)
    &&& k == "temperature_unit"@ ==> (v == Json::Str("C"@) || v == Json::Str("F"@))
    &&& k == "gpio_fan_led"@ ==> (v == Json::Str("on"@) || v == Json::Str("off"@) || v == Json::Str("follow"@))
    &&& k == "rgb_color"@ ==> (v matches Json::Str(c) && c.len() == 7 && c[0] == '#' && text::all_hex(c.drop_first()))
}

pub open spec fn step_valid(s: Step) -> bool {
    match s {
        Step::Change(k, v, m) => setting_valid(k, v),
        _ => true,
    }
}

/// A key that no check covers.
pub open spec fn unchecked_key(k: Seq<char>) -> bool {
    &&& k != "rgb_brightness"@
    &&& k != "rgb_speed"@
    &&& k != "rgb_led_count"@
    &&& k != "oled_rotation"@
    &&& k != "vibration_switch_pin"@
    &&& k != "temperature_unit"@
    &&& k != "gpio_fan_led"@
    &&& k != "rgb_color"@
}

proof fn lemma_lengths()
    ensures
        "rgb_brightness"@.len() == 14,
        "rgb_speed"@.len() == 9,
        "rgb_led_count"@.len() == 13,
        "oled_rotation"@.len() == 13,
        "vibration_switch_pin"@.len() == 20,
        "temperature_unit"@.len() == 16,
        "gpio_fan_led"@.len() == 12,
        "rgb_color"@.len() == 9,
{
    reveal_strlit("rgb_brightness");
    reveal_strlit("rgb_speed");
    reveal_strlit("rgb_led_count");
    reveal_strlit("oled_rotation");
    reveal_strlit("vibration_switch_pin");
    reveal_strlit("temperature_unit");
    reveal_strlit("gpio_fan_led");
    reveal_strlit("rgb_color");
}

proof fn lemma_unchecked_keys()
    ensures
        unchecked_key("debug_level"@),
        unchecked_key("rgb_style"@),
        unchecked_key("rgb_enable"@),
        unchecked_key("gpio_fan_mode"@),
        unchecked_key("gpio_fan_pin"@),
        unchecked_key("gpio_fan_led_pin"@),
        unchecked_key("oled_enable"@),
        unchecked_key("oled_disk"@),
        unchecked_key("oled_network_interface"@),
        unchecked_key("vibration_switch_pull_up"@),
        unchecked_key("oled_sleep_timeout"@),
{
    lemma_lengths();
    reveal_strlit("debug_level");
    reveal_strlit("rgb_style");
    reveal_strlit("rgb_enable");
    reveal_strlit("gpio_fan_mode");
    reveal_strlit("gpio_fan_pin");
    reveal_strlit("gpio_fan_led_pin");
    reveal_strlit("oled_enable");
    reveal_strlit("oled_disk");
    reveal_strlit("oled_network_interface");
    reveal_strlit("vibration_switch_pull_up");
    reveal_strlit("oled_sleep_timeout");
    reveal_strlit("rgb_speed");
    reveal_strlit("rgb_color");
    reveal_strlit("rgb_led_count");
    reveal_strlit("oled_rotation");
    reveal_strlit("gpio_fan_led");
    reveal_strlit("temperature_unit");
    assert("rgb_style"@[5] != "rgb_speed"@[5]);
    assert("rgb_style"@[4] != "rgb_color"@[4]);
    assert("oled_disk"@[0] != "rgb_speed"@[0]);
    assert("oled_disk"@[0] != "rgb_color"@[0]);
    assert("gpio_fan_mode"@[0] != "rgb_led_count"@[0]);
    assert("gpio_fan_mode"@[0] != "oled_rotation"@[0]);
    assert("gpio_fan_pin"@[9] != "gpio_fan_led"@[9]);
    assert("gpio_fan_led_pin"@[0] != "temperature_unit"@[0]);
}

proof fn lemma_checked_keys_distinct()
    ensures
        "rgb_color"@ != "rgb_speed"@,
        "rgb_led_count"@ != "oled_rotation"@,
{
    reveal_strlit("rgb_speed");
    reveal_strlit("rgb_color");
    reveal_strlit("rgb_led_count");
    reveal_strlit("oled_rotation");
    assert("rgb_color"@[4] != "rgb_speed"@[4]);
    assert("rgb_led_count"@[0] != "oled_rotation"@[0]);
}

proof fn lemma_steps_valid(cli: Cli)
    ensures
        forall|j: int| 0 <= j < cli_steps(cli).len() ==> step_valid(#[trigger] cli_steps(cli)[j]),
{
    lemma_lengths();
    lemma_unchecked_keys();
    lemma_checked_keys_distinct();
    let st = cli_steps(cli);
    assert(step_valid(st[1])) by {
        reveal_strlit("#");
        match opt_view(cli.rgb_color) {
            Some(s) => {
                assert(("#"@ + s).drop_first() =~= s);
                assert(("#"@ + s)[0] == '#');
            },
            None => {},
        }
    }
    assert(step_valid(st[7])) by {
        match opt_view(cli.temperature_unit) {
            Some(s) => {},
            None => {},
        }
    }
    assert(step_valid(st[10])) by {
        match opt_view(cli.gpio_fan_led) {
            Some(s) => {},
            None => {},
        }
    }
    assert forall|j: int| 0 <= j < st.len() implies step_valid(#[trigger] st[j]) by {
        if j == 1 || j == 7 || j == 10 {
        } else {
        }
    }
}

proof fn lemma_run_steps_from_steps(st: Seq<Step>)
    ensures
        forall|i: int| #![trigger run_steps(st).0[i]] 0 <= i < run_steps(st).0.len() ==> exists|j: int| 0 <= j < st.len()
            && #[trigger] st[j] == Step::Change(run_steps(st).0[i].0, run_steps(st).0[i].1, run_steps(st).0[i].2),
    decreases st.len(),
{
    if st.len() > 0 {
        let p = st.drop_last();
        lemma_run_steps_from_steps(p);
        assert forall|i: int| #![trigger run_steps(st).0[i]] 0 <= i < run_steps(st).0.len() implies exists|j: int| 0 <= j < st.len()
            && #[trigger] st[j] == Step::Change(run_steps(st).0[i].0, run_steps(st).0[i].1, run_steps(st).0[i].2) by {
            if i < run_steps(p).0.len() {
                assert(run_steps(st).0[i] == run_steps(p).0[i]);
                let j = choose|j: int| 0 <= j < p.len()
                    && #[trigger] p[j] == Step::Change(run_steps(p).0[i].0, run_steps(p).0[i].1, run_steps(p).0[i].2);
                assert(st[j] == p[j]);
            } else {
                assert(st[st.len() - 1] == Step::Change(run_steps(st).0[i].0, run_steps(st).0[i].1, run_steps(st).0[i].2));
            }
        }
    }
}

/// No refused value is ever written: every setting the command line writes
/// passed its option's check.
pub proof fn law_written_settings_valid(cli: Cli)
    ensures
        forall|i: int| 0 <= i < run_steps(cli_steps(cli)).0.len() ==>
            setting_valid(#[trigger] run_steps(cli_steps(cli)).0[i].0, run_steps(cli_steps(cli)).0[i].1),
{
    let st = cli_steps(cli);
    lemma_steps_valid(cli);
    lemma_run_steps_from_steps(st);
    assert forall|i: int| 0 <= i < run_steps(st).0.len() implies
        setting_valid(#[trigger] run_steps(st).0[i].0, run_steps(st).0[i].1) by {
        let j = choose|j: int| 0 <= j < st.len()
            && #[trigger] st[j] == Step::Change(run_steps(st).0[i].0, run_steps(st).0[i].1, run_steps(st).0[i].2);
        assert(step_valid(st[j]));
    }
}

/// The key each option writes, in the order the options are checked.
spec fn option_keys() -> Seq<Seq<char>> {
    seq![
        "debug_level"@, "rgb_color"@, "rgb_brightness"@, "rgb_style"@, "rgb_speed"@,
        "rgb_enable"@, "rgb_led_count"@, "temperature_unit"@, "gpio_fan_mode"@, "gpio_fan_pin"@,
        "gpio_fan_led"@, "gpio_fan_led_pin"@, "oled_enable"@, "oled_disk"@, "oled_network_interface"@,
        "oled_rotation"@, "vibration_switch_pin"@, "vibration_switch_pull_up"@, "oled_sleep_timeout"@,
    ]
}

/// The value a step writes, if it writes one.
spec fn step_value(s: Step) -> Option<Json> {
    match s {
        Step::Change(_, v, _) => Some(v),
        _ => None,
    }
}

proof fn lemma_option_keys_distinct()
    ensures
        option_keys().len() == 19,
        forall|i: int, j: int| 0 <= i < 19 && 0 <= j < 19 && i != j ==> option_keys()[i] != option_keys()[j],
{
    reveal_strlit("debug_level");
    reveal_strlit("rgb_color");
    reveal_strlit("rgb_brightness");
    reveal_strlit("rgb_style");
    reveal_strlit("rgb_speed");
    reveal_strlit("rgb_enable");
    reveal_strlit("rgb_led_count");
    reveal_strlit("temperature_unit");
    reveal_strlit("gpio_fan_mode");
    reveal_strlit("gpio_fan_pin");
    reveal_strlit("gpio_fan_led");
    reveal_strlit("gpio_fan_led_pin");
    reveal_strlit("oled_enable");
    reveal_strlit("oled_disk");
    reveal_strlit("oled_network_interface");
    reveal_strlit("oled_rotation");
    reveal_strlit("vibration_switch_pin");
    reveal_strlit("vibration_switch_pull_up");
    reveal_strlit("oled_sleep_timeout");
    let ks = option_keys();
    assert forall|i: int, j: int| 0 <= i < 19 && 0 <= j < 19 && i != j implies ks[i] != ks[j] by {
        if ks[i].len() == ks[j].len() {
            assert(ks[i][0] != ks[j][0] || ks[i][4] != ks[j][4] || ks[i][5] != ks[j][5] || ks[i][9] != ks[j][9]);
        }
    }
}

/// Each option that writes a setting writes it under its own key.
proof fn lemma_step_keys(cli: Cli)
    ensures
        cli_steps(cli).len() == 19,
        forall|j: int| 0 <= j < 19 && (#[trigger] cli_steps(cli)[j]) is Change ==> cli_steps(cli)[j]->Change_0 == option_keys()[j],
{
}

/// Without a refusal no step fails, and the steps before are free of one too.
proof fn lemma_no_failure(st: Seq<Step>)
    requires
        run_steps(st).1 is None,
    ensures
        forall|j: int| 0 <= j < st.len() ==> !(#[trigger] st[j] is Fail),
    decreases st.len(),
{
    if st.len() > 0 {
        let p = st.drop_last();
        assert(run_steps(p).1 is None);
        lemma_no_failure(p);
        assert forall|j: int| 0 <= j < st.len() implies !(#[trigger] st[j] is Fail) by {
            if j < p.len() {
                assert(st[j] == p[j]);
            }
        }
    }
}

/// Without a refusal, the settings written hold, under each step's key, the
/// value that step gives; keys of no step are absent.
proof fn lemma_written_values(st: Seq<Step>, keys: Seq<Seq<char>>)
    requires
        st.len() == keys.len(),
        forall|i: int, j: int| 0 <= i < keys.len() && 0 <= j < keys.len() && i != j ==> keys[i] != keys[j],
        forall|j: int| 0 <= j < st.len() && (#[trigger] st[j]) is Change ==> st[j]->Change_0 == keys[j],
        run_steps(st).1 is None,
    ensures
        forall|j: int| 0 <= j < st.len() ==> json::entries_get(pairs_of(run_steps(st).0), #[trigger] keys[j]) == step_value(st[j]),
        forall|k: Seq<char>| (forall|j: int| 0 <= j < keys.len() ==> keys[j] != k) ==> json::entries_get(pairs_of(run_steps(st).0), k) is None,
    decreases st.len(),
{
    let cs = run_steps(st).0;
    if st.len() == 0 {
        assert forall|k: Seq<char>| json::entries_get(pairs_of(cs), k) is None by {
            json::lemma_key_index(pairs_of(cs), k);
        }
    } else {
        let p = st.drop_last();
        let kp = keys.drop_last();
        let prev = run_steps(p);
        assert(prev.1 is None);
        assert forall|j: int| 0 <= j < p.len() && (#[trigger] p[j]) is Change implies p[j]->Change_0 == kp[j] by {
            assert(p[j] == st[j]);
        }
        lemma_written_values(p, kp);
        let last = keys[keys.len() - 1];
        assert forall|j: int| 0 <= j < kp.len() implies kp[j] != last by {}
        match st.last() {
            Step::Change(k, v, m) => {
                assert(st[st.len() - 1] is Change);
                assert(cs == prev.0.push((k, v, m)));
                assert(pairs_of(cs) =~= pairs_of(prev.0).push((k, v)));
                json::lemma_drop_last_lookup(pairs_of(cs));
                assert(pairs_of(cs).drop_last() =~= pairs_of(prev.0));
                assert forall|j: int| 0 <= j < st.len() implies json::entries_get(pairs_of(cs), #[trigger] keys[j]) == step_value(st[j]) by {
                    if j < p.len() {
                        assert(kp[j] == keys[j]);
                        assert(p[j] == st[j]);
                    }
                }
                assert forall|k2: Seq<char>| (forall|j: int| 0 <= j < keys.len() ==> keys[j] != k2) implies json::entries_get(pairs_of(cs), k2) is None by {
                    assert(keys[keys.len() - 1] != k2);
                    assert forall|j: int| 0 <= j < kp.len() implies kp[j] != k2 by {
                        assert(kp[j] == keys[j]);
                    }
                }
            },
            Step::Skip => {
                assert(cs == prev.0);
                assert(json::entries_get(pairs_of(cs), last) is None);
                assert forall|j: int| 0 <= j < st.len() implies json::entries_get(pairs_of(cs), #[trigger] keys[j]) == step_value(st[j]) by {
                    if j < p.len() {
                        assert(kp[j] == keys[j]);
                        assert(p[j] == st[j]);
                    }
                }
                assert forall|k2: Seq<char>| (forall|j: int| 0 <= j < keys.len() ==> keys[j] != k2) implies json::entries_get(pairs_of(cs), k2) is None by {
                    assert forall|j: int| 0 <= j < kp.len() implies kp[j] != k2 by {
                        assert(kp[j] == keys[j]);
                    }
                }
            },
            Step::Fail(e) => {
                assert(false);
            },
        }
    }
}

/// Writing settings into an empty object gives, for each key, the last value
/// written under it.
proof fn lemma_overwrite_empty(es: json::Entries, k: Seq<char>)
    ensures
        json::entries_get(json::overwrite_entries(Seq::empty(), es), k) == json::entries_get(es, k),
    decreases es.len(),
{
    if es.len() == 0 {
        json::lemma_key_index(es, k);
        json::lemma_key_index(Seq::<(Seq<char>, Json)>::empty(), k);
    } else {
        lemma_overwrite_empty(es.drop_last(), k);
        json::lemma_drop_last_lookup(es);
        json::lemma_entries_insert(json::overwrite_entries(Seq::empty(), es.drop_last()), es.last().0, es.last().1);
    }
}

/// Each accepted option is written under its own key, with its own value, and
/// a key is written only from its own option. When no option is refused, the
/// `system` object written holds `rgb_speed = n` exactly when `--rgb-speed n`
/// is given, `rgb_brightness = n` exactly when `--rgb-brightness n` is
/// given, and likewise for every option: the debug level in upper case, the
/// color behind a `#`, the fan LED state in lower case, truth values as
/// booleans, and texts and numbers as given.
pub proof fn law_options_written_under_own_keys(cli: Cli)
    requires
        run_steps(cli_steps(cli)).1 is None,
    ensures
        ({
            let sys = changes_object(run_steps(cli_steps(cli)).0)->Object_0;
            &&& json::entries_get(sys, "debug_level"@) == match cli.debug_level {
                Some(s) => Some(Json::Str(text::uppercase(s@))), None => None::<Json> }
            &&& json::entries_get(sys, "rgb_color"@) == match cli.rgb_color {
                Some(s) => Some(Json::Str("#"@ + s@)), None => None::<Json> }
            &&& json::entries_get(sys, "rgb_brightness"@) == match cli.rgb_brightness {
                Some(n) => Some(Json::Number(JsonNumber::PosInt(n as u64))), None => None::<Json> }
            &&& json::entries_get(sys, "rgb_style"@) == match cli.rgb_style {
                Some(s) => Some(Json::Str(s@)), None => None::<Json> }
            &&& json::entries_get(sys, "rgb_speed"@) == match cli.rgb_speed {
                Some(n) => Some(Json::Number(JsonNumber::PosInt(n as u64))), None => None::<Json> }
            &&& json::entries_get(sys, "rgb_enable"@) == match cli.rgb_enable {
                Some(s) => match bool_word(text::lowercase(s@)) { Some(b) => Some(Json::Bool(b)), None => None::<Json> },
                None => None::<Json> }
            &&& json::entries_get(sys, "rgb_led_count"@) == match cli.rgb_led_count {
                Some(n) => Some(Json::Number(JsonNumber::PosInt(n as u64))), None => None::<Json> }
            &&& json::entries_get(sys, "temperature_unit"@) == match cli.temperature_unit {
                Some(s) => Some(Json::Str(s@)), None => None::<Json> }
            &&& json::entries_get(sys, "gpio_fan_mode"@) == match cli.gpio_fan_mode {
                Some(n) => Some(Json::Number(JsonNumber::PosInt(n as u64))), None => None::<Json> }
            &&& json::entries_get(sys, "gpio_fan_pin"@) == match cli.gpio_fan_pin {
                Some(n) => Some(Json::Number(JsonNumber::PosInt(n as u64))), None => None::<Json> }
            &&& json::entries_get(sys, "gpio_fan_led"@) == match cli.gpio_fan_led {
                Some(s) => Some(Json::Str(text::lowercase(s@))), None => None::<Json> }
            &&& json::entries_get(sys, "gpio_fan_led_pin"@) == match cli.gpio_fan_led_pin {
                Some(n) => Some(Json::Number(JsonNumber::PosInt(n as u64))), None => None::<Json> }
            &&& json::entries_get(sys, "oled_enable"@) == match cli.oled_enable {
                Some(s) => match bool_word(text::lowercase(s@)) { Some(b) => Some(Json::Bool(b)), None => None::<Json> },
                None => None::<Json> }
            &&& json::entries_get(sys, "oled_disk"@) == match cli.oled_disk {
                Some(s) => Some(Json::Str(s@)), None => None::<Json> }
            &&& json::entries_get(sys, "oled_network_interface"@) == match cli.oled_network_interface {
                Some(s) => Some(Json::Str(s@)), None => None::<Json> }
            &&& json::entries_get(sys, "oled_rotation"@) == match cli.oled_rotation {
                Some(n) => Some(Json::Number(JsonNumber::PosInt(n as u64))), None => None::<Json> }
            &&& json::entries_get(sys, "vibration_switch_pin"@) == match cli.vibration_switch_pin {
                Some(n) => Some(Json::Number(JsonNumber::PosInt(n as u64))), None => None::<Json> }
            &&& json::entries_get(sys, "vibration_switch_pull_up"@) == match cli.vibration_switch_pull_up {
                Some(s) => match bool_word(text::lowercase(s@)) { Some(b) => Some(Json::Bool(b)), None => None::<Json> },
                None => None::<Json> }
            &&& json::entries_get(sys, "oled_sleep_timeout"@) == match cli.oled_sleep_timeout {
                Some(n) => Some(Json::Number(JsonNumber::PosInt(n as u64))), None => None::<Json> }
        }),
{
    let st = cli_steps(cli);
    let ks = option_keys();
    lemma_option_keys_distinct();
    lemma_step_keys(cli);
    lemma_no_failure(st);
    lemma_written_values(st, ks);
    let cs = run_steps(st).0;
    assert forall|j: int| 0 <= j < 19 implies json::entries_get(changes_object(cs)->Object_0, #[trigger] ks[j]) == step_value(st[j]) by {
        lemma_overwrite_empty(pairs_of(cs), ks[j]);
        assert(json::entries_get(pairs_of(cs), ks[j]) == step_value(st[j]));
    }
    assert(!(st[1] is Fail) && !(st[2] is Fail) && !(st[4] is Fail) && !(st[5] is Fail) && !(st[6] is Fail));
    assert(!(st[7] is Fail) && !(st[10] is Fail) && !(st[12] is Fail) && !(st[15] is Fail) && !(st[16] is Fail) && !(st[17] is Fail));
    assert(json::entries_get(changes_object(cs)->Object_0, ks[0]) == step_value(st[0]));
    assert(json::entries_get(changes_object(cs)->Object_0, ks[1]) == step_value(st[1]));
    assert(json::entries_get(changes_object(cs)->Object_0, ks[2]) == step_value(st[2]));
    assert(json::entries_get(changes_object(cs)->Object_0, ks[3]) == step_value(st[3]));
    assert(json::entries_get(changes_object(cs)->Object_0, ks[4]) == step_value(st[4]));
    assert(json::entries_get(changes_object(cs)->Object_0, ks[5]) == step_value(st[5]));
    assert(json::entries_get(changes_object(cs)->Object_0, ks[6]) == step_value(st[6]));
    assert(json::entries_get(changes_object(cs)->Object_0, ks[7]) == step_value(st[7]));
    assert(json::entries_get(changes_object(cs)->Object_0, ks[8]) == step_value(st[8]));
    assert(json::entries_get(changes_object(cs)->Object_0, ks[9]) == step_value(st[9]));
    assert(json::entries_get(changes_object(cs)->Object_0, ks[10]) == step_value(st[10]));
    assert(json::entries_get(changes_object(cs)->Object_0, ks[11]) == step_value(st[11]));
    assert(json::entries_get(changes_object(cs)->Object_0, ks[12]) == step_value(st[12]));
    assert(json::entries_get(changes_object(cs)->Object_0, ks[13]) == step_value(st[13]));
    assert(json::entries_get(changes_object(cs)->Object_0, ks[14]) == step_value(st[14]));
    assert(json::entries_get(changes_object(cs)->Object_0, ks[15]) == step_value(st[15]));
    assert(json::entries_get(changes_object(cs)->Object_0, ks[16]) == step_value(st[16]));
    assert(json::entries_get(changes_object(cs)->Object_0, ks[17]) == step_value(st[17]));
    assert(json::entries_get(changes_object(cs)->Object_0, ks[18]) == step_value(st[18]));
}

/// The truth words: `true`, `1`, `on`, `yes` are true; `false`, `0`, `off`,
/// `no` are false; no other word is a truth value.
pub proof fn law_bool_words(lower: Seq<char>)
    ensures
        (bool_word(lower) == Some(true)) <==> (lower == seq!['t', 'r', 'u', 'e'] || lower == seq!['1']
            || lower == seq!['o', 'n'] || lower == seq!['y', 'e', 's']),
        (bool_word(lower) == Some(false)) <==> (lower == seq!['f', 'a', 'l', 's', 'e'] || lower == seq!['0']
            || lower == seq!['o', 'f', 'f'] || lower == seq!['n', 'o']),
{
    reveal_strlit("true");
    reveal_strlit("1");
    reveal_strlit("on");
    reveal_strlit("yes");
    reveal_strlit("false");
    reveal_strlit("0");
    reveal_strlit("off");
    reveal_strlit("no");
    assert(seq!['t', 'r', 'u', 'e'] =~= "true"@);
    assert(seq!['1'] =~= "1"@);
    assert(seq!['o', 'n'] =~= "on"@);
    assert(seq!['y', 'e', 's'] =~= "yes"@);
    assert(seq!['f', 'a', 'l', 's', 'e'] =~= "false"@);
    assert(seq!['0'] =~= "0"@);
    assert(seq!['o', 'f', 'f'] =~= "off"@);
    assert(seq!['n', 'o'] =~= "no"@);
    if lower == seq!['f', 'a', 'l', 's', 'e'] || lower == seq!['0'] || lower == seq!['o', 'f', 'f'] || lower == seq!['n', 'o'] {
        assert(lower != "true"@ && lower != "1"@ && lower != "on"@ && lower != "yes"@) by {
            if lower.len() == 1 {
                assert(lower[0] != "1"@[0]);
            }
            if lower.len() == 2 {
                assert(lower[0] != "on"@[0]);
            }
            if lower.len() == 3 {
                assert(lower[0] != "yes"@[0]);
            }
        }
    }
}

/// Without a failed step there is no refusal.
proof fn lemma_no_failure_converse(st: Seq<Step>)
    requires
        forall|j: int| 0 <= j < st.len() ==> !(#[trigger] st[j] is Fail),
    ensures
        run_steps(st).1 is None,
    decreases st.len(),
{
    if st.len() > 0 {
        let p = st.drop_last();
        assert forall|j: int| 0 <= j < p.len() implies !(#[trigger] p[j] is Fail) by {
            assert(p[j] == st[j]);
        }
        lemma_no_failure_converse(p);
        assert(!(st[st.len() - 1] is Fail));
    }
}

/// Which command lines are refused: no option is refused exactly when the
/// color is six hexadecimal digits, brightness and speed are at most 100,
/// the LED count is at least 1, the temperature unit is `C` or `F`, the fan
/// LED state is `on`, `off` or `follow` in any case, the rotation is 0 or
/// 180, the vibration switch pin is at most 40, and every truth option is a
/// truth word; any other value of any option is refused.
pub proof fn law_refusals(cli: Cli)
    ensures
        (run_steps(cli_steps(cli)).1 is None) <==> {
            &&& (cli.rgb_color matches Some(s) ==> s@.len() == 6 && text::all_hex(s@))
            &&& (cli.rgb_brightness matches Some(n) ==> n <= 100)
            &&& (cli.rgb_speed matches Some(n) ==> n <= 100)
            &&& (cli.rgb_enable matches Some(s) ==> bool_word(text::lowercase(s@)) is Some)
            &&& (cli.rgb_led_count matches Some(n) ==> n >= 1)
            &&& (cli.temperature_unit matches Some(s) ==> s@ == seq!['C'] || s@ == seq!['F'])
            &&& (cli.gpio_fan_led matches Some(s) ==> text::lowercase(s@) == seq!['o', 'n']
                || text::lowercase(s@) == seq!['o', 'f', 'f'] || text::lowercase(s@) == seq!['f', 'o', 'l', 'l', 'o', 'w'])
            &&& (cli.oled_enable matches Some(s) ==> bool_word(text::lowercase(s@)) is Some)
            &&& (cli.oled_rotation matches Some(n) ==> n == 0 || n == 180)
            &&& (cli.vibration_switch_pin matches Some(n) ==> n <= 40)
            &&& (cli.vibration_switch_pull_up matches Some(s) ==> bool_word(text::lowercase(s@)) is Some)
        },
{
    reveal_strlit("C");
    reveal_strlit("F");
    reveal_strlit("on");
    reveal_strlit("off");
    reveal_strlit("follow");
    assert(seq!['C'] =~= "C"@);
    assert(seq!['F'] =~= "F"@);
    assert(seq!['o', 'n'] =~= "on"@);
    assert(seq!['o', 'f', 'f'] =~= "off"@);
    assert(seq!['f', 'o', 'l', 'l', 'o', 'w'] =~= "follow"@);
    let st = cli_steps(cli);
    if run_steps(st).1 is None {
        lemma_no_failure(st);
        assert(!(st[1] is Fail) && !(st[2] is Fail) && !(st[4] is Fail) && !(st[5] is Fail) && !(st[6] is Fail));
        assert(!(st[7] is Fail) && !(st[10] is Fail) && !(st[12] is Fail) && !(st[15] is Fail) && !(st[16] is Fail) && !(st[17] is Fail));
    }
    if ({
            &&& (cli.rgb_color matches Some(s) ==> s@.len() == 6 && text::all_hex(s@))
            &&& (cli.rgb_brightness matches Some(n) ==> n <= 100)
            &&& (cli.rgb_speed matches Some(n) ==> n <= 100)
            &&& (cli.rgb_enable matches Some(s) ==> bool_word(text::lowercase(s@)) is Some)
            &&& (cli.rgb_led_count matches Some(n) ==> n >= 1)
            &&& (cli.temperature_unit matches Some(s) ==> s@ == seq!['C'] || s@ == seq!['F'])
            &&& (cli.gpio_fan_led matches Some(s) ==> text::lowercase(s@) == seq!['o', 'n']
                || text::lowercase(s@) == seq!['o', 'f', 'f'] || text::lowercase(s@) == seq!['f', 'o', 'l', 'l', 'o', 'w'])
            &&& (cli.oled_enable matches Some(s) ==> bool_word(text::lowercase(s@)) is Some)
            &&& (cli.oled_rotation matches Some(n) ==> n == 0 || n == 180)
            &&& (cli.vibration_switch_pin matches Some(n) ==> n <= 40)
            &&& (cli.vibration_switch_pull_up matches Some(s) ==> bool_word(text::lowercase(s@)) is Some)
        }) {
        assert forall|j: int| 0 <= j < st.len() implies !(#[trigger] st[j] is Fail) by {
            assert(st.len() == 19);
        }
        lemma_no_failure_converse(st);
    }
}

} // verus!
