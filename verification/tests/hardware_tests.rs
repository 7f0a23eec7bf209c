use pironman5::hardware::fan::{led_lit, FanConfig, FanLedState, FanMode};
use pironman5::hardware::oled::{
    cpu_icon, logo_icon, memory_icon, network_icon, network_text, temperature_icon, OledRotation, OledSettings, Shape,
};
use pironman5::hardware::rgb::{
    chase_frame, chase_position, off_frame, parse_hex_color, splits_char, uniform_frame, Rgb8, RgbSettings,
    RgbStyle,
};
use pironman5::hardware::temperature::{gpu_temperature_text, parse_millidegrees, TemperatureMonitor, TemperatureUnit};
use pironman5::hardware::{wanted_components, Component, HardwareError, HardwareManager, ShutdownAction};
use pironman5::json::{JsonEntry, JsonNumber, JsonValue};

fn num(n: u64) -> JsonValue {
    JsonValue::Number(JsonNumber::PosInt(n))
}

fn s(v: &str) -> JsonValue {
    JsonValue::Str(v.to_string())
}

fn obj(entries: Vec<(&str, JsonValue)>) -> JsonValue {
    JsonValue::Object(
        entries
            .into_iter()
            .map(|(k, v)| JsonEntry { key: k.to_string(), value: v })
            .collect(),
    )
}

fn system(entries: Vec<(&str, JsonValue)>) -> JsonValue {
    obj(vec![("system", obj(entries))])
}

#[test]
fn fan_modes() {
    assert_eq!(FanMode::from_value(0), FanMode::AlwaysOn);
    assert_eq!(FanMode::from_value(1), FanMode::Temperature);
    assert_eq!(FanMode::from_value(2), FanMode::Quiet);
    assert_eq!(FanMode::from_value(3), FanMode::Performance);
    assert_eq!(FanMode::from_value(9), FanMode::Temperature);
    assert_eq!(FanMode::AlwaysOn.get_thresholds(), vec![(0, 100)]);
    assert_eq!(FanMode::Temperature.get_thresholds(), vec![(40, 30), (50, 50), (60, 70), (70, 100)]);
    assert_eq!(FanMode::Quiet.get_thresholds(), vec![(50, 30), (60, 50), (70, 70), (80, 100)]);
    assert_eq!(FanMode::Performance.get_thresholds(), vec![(35, 50), (45, 70), (55, 85), (65, 100)]);
}

#[test]
fn fan_config() {
    let c = FanConfig::from_config(&system(vec![("gpio_fan_mode", num(3)), ("gpio_fan_pin", num(6))]));
    assert_eq!(c, FanConfig { mode: FanMode::Performance, pin: Some(6), led_pin: None, led_state: FanLedState::Follow });
    let c = FanConfig::from_config(&system(vec![]));
    assert_eq!(c.mode, FanMode::Temperature);
    let c = FanConfig::from_config(&system(vec![("gpio_fan_mode", num(256)), ("gpio_fan_led_pin", num(261))]));
    assert_eq!(c.mode, FanMode::AlwaysOn);
    assert_eq!(c.led_pin, Some(5));
    let c = FanConfig::from_config(&system(vec![("gpio_fan_mode", s("2"))]));
    assert_eq!(c.mode, FanMode::Temperature);
    let c = FanConfig::from_config(&system(vec![("gpio_fan_led", s("on"))]));
    assert_eq!(c.led_state, FanLedState::On);
    let c = FanConfig::from_config(&system(vec![("gpio_fan_led", s("off"))]));
    assert_eq!(c.led_state, FanLedState::Off);
    let c = FanConfig::from_config(&system(vec![("gpio_fan_led", s("follow"))]));
    assert_eq!(c.led_state, FanLedState::Follow);
    let c = FanConfig::from_config(&system(vec![("gpio_fan_led", num(1))]));
    assert_eq!(c.led_state, FanLedState::Follow);
}

#[test]
fn fan_led() {
    assert!(led_lit(FanLedState::On, false));
    assert!(!led_lit(FanLedState::Off, true));
    assert!(led_lit(FanLedState::Follow, true));
    assert!(!led_lit(FanLedState::Follow, false));
}

#[test]
fn rgb_styles() {
    assert_eq!(RgbStyle::from_str("solid"), RgbStyle::Solid);
    assert_eq!(RgbStyle::from_str("RAINBOW"), RgbStyle::Rainbow);
    assert_eq!(RgbStyle::from_str("Chase"), RgbStyle::Chase);
    assert_eq!(RgbStyle::from_str("pulse"), RgbStyle::Pulse);
    assert_eq!(RgbStyle::from_str("breathing"), RgbStyle::Breathing);
    assert_eq!(RgbStyle::from_str("sparkle"), RgbStyle::Breathing);
}

#[test]
fn hex_colors() {
    assert_eq!(parse_hex_color("#0a1aff"), Ok(Rgb8::new(0x0a, 0x1a, 0xff)));
    assert_eq!(parse_hex_color("ff00FF"), Ok(Rgb8::new(255, 0, 255)));
    assert_eq!(parse_hex_color("##000000"), Ok(Rgb8::new(0, 0, 0)));
    assert_eq!(parse_hex_color("+f+f+f"), Err(HardwareError::InvalidDigit));
    assert_eq!(parse_hex_color("+f0000"), Err(HardwareError::InvalidDigit));
    assert_eq!(parse_hex_color("#0a1af"), Err(HardwareError::InvalidHexColor));
    assert_eq!(parse_hex_color("#0a1ag0"), Err(HardwareError::InvalidDigit));
    assert_eq!(parse_hex_color("#fff"), Err(HardwareError::InvalidHexColor));
    assert_eq!(parse_hex_color("#0g0000"), Err(HardwareError::InvalidDigit));
    assert_eq!(parse_hex_color("-10000"), Err(HardwareError::InvalidDigit));
    assert_eq!(parse_hex_color("\u{e9}\u{e9}\u{e9}"), Err(HardwareError::InvalidDigit));
    assert!(!splits_char("\u{e9}\u{e9}\u{e9}"));
    assert!(splits_char("a\u{e9}aaa"));
    assert!(splits_char("ab\u{1F600}"));
    assert!(!splits_char("zz\u{1F600}"));
    assert_eq!(parse_hex_color("zz\u{1F600}"), Err(HardwareError::InvalidDigit));
}

#[test]
fn rgb_settings() {
    let r = RgbSettings::from_config(&system(vec![])).unwrap();
    assert_eq!(
        r,
        RgbSettings {
            led_count: 4,
            brightness: 50,
            color: Rgb8::new(0x0a, 0x1a, 0xff),
            style: RgbStyle::Breathing,
            speed: 50,
            enabled: true,
        }
    );
    let r = RgbSettings::from_config(&system(vec![
        ("rgb_led_count", num(8)),
        ("rgb_brightness", num(300)),
        ("rgb_enable", JsonValue::Bool(false)),
        ("rgb_color", s("#ff00ff")),
        ("rgb_style", s("Chase")),
        ("rgb_speed", num(80)),
    ]))
    .unwrap();
    assert_eq!(r.led_count, 8);
    assert_eq!(r.brightness, 44);
    assert!(!r.enabled);
    assert_eq!(r.color, Rgb8::new(255, 0, 255));
    assert_eq!(r.style, RgbStyle::Chase);
    assert_eq!(r.speed, 80);
    assert_eq!(
        RgbSettings::from_config(&system(vec![("rgb_color", s("blue"))])),
        Err(HardwareError::InvalidHexColor)
    );
}

#[test]
fn frames() {
    let c = Rgb8::new(1, 2, 3);
    let off = Rgb8::new(0, 0, 0);
    assert_eq!(uniform_frame(3, c), vec![c, c, c]);
    assert_eq!(off_frame(2), vec![off, off]);
    assert_eq!(chase_frame(4, 2, c), vec![off, off, c, off]);
    assert_eq!(chase_frame(2, 5, c), vec![off, off]);
    assert_eq!(chase_position(9, 4), 1);
    assert_eq!(uniform_frame(0, c), vec![]);
}

#[test]
fn temperature_units() {
    assert_eq!(TemperatureUnit::from_str("F"), TemperatureUnit::Fahrenheit);
    assert_eq!(TemperatureUnit::from_str("f"), TemperatureUnit::Fahrenheit);
    assert_eq!(TemperatureUnit::from_str("C"), TemperatureUnit::Celsius);
    assert_eq!(TemperatureUnit::from_str("kelvin"), TemperatureUnit::Celsius);
    let mut m = TemperatureMonitor::new(&system(vec![("temperature_unit", s("f"))])).unwrap();
    assert_eq!(m.get_unit(), TemperatureUnit::Fahrenheit);
    m.set_unit(TemperatureUnit::Celsius);
    assert_eq!(m.get_unit(), TemperatureUnit::Celsius);
    let m = TemperatureMonitor::new(&system(vec![])).unwrap();
    assert_eq!(m.get_unit(), TemperatureUnit::Celsius);
}

#[test]
fn temperature_texts() {
    assert_eq!(parse_millidegrees("45678\n"), Some(45678));
    assert_eq!(parse_millidegrees(" -500 "), Some(-500));
    assert_eq!(parse_millidegrees("4.5"), None);
    assert_eq!(parse_millidegrees(""), None);
    assert_eq!(gpu_temperature_text("temp=45.0'C\n"), Some("45.0".to_string()));
    assert_eq!(gpu_temperature_text("temp=45.0"), None);
    assert_eq!(gpu_temperature_text("error"), None);
}

#[test]
fn oled_settings() {
    let o = OledSettings::from_config(&system(vec![]));
    assert_eq!(o, OledSettings { enabled: true, rotation: OledRotation::Rotate0 });
    let o = OledSettings::from_config(&system(vec![("oled_enable", JsonValue::Bool(false)), ("oled_rotation", num(180))]));
    assert_eq!(o, OledSettings { enabled: false, rotation: OledRotation::Rotate180 });
    let o = OledSettings::from_config(&system(vec![("oled_rotation", num(90))]));
    assert_eq!(o.rotation, OledRotation::Rotate0);
    assert_eq!(network_text(Some("192.168.1.2")), "192.168.1.2");
    assert_eq!(network_text(None), "No connection");
}

#[test]
fn hardware_manager_steps() {
    let hm: HardwareManager<u8, u8, u8, u8> = HardwareManager { rgb: Some(1), oled: None, fan: Some(1), temperature: None };
    assert_eq!(hm.update(), vec![Component::Rgb]);
    assert_eq!(hm.shutdown(), vec![Component::Rgb, Component::Fan]);
    let hm: HardwareManager<u8, u8, u8, u8> = HardwareManager { rgb: Some(1), oled: Some(1), fan: Some(1), temperature: Some(1) };
    assert_eq!(hm.update(), vec![Component::Rgb, Component::Oled, Component::Fan]);
    let p: Vec<String> = vec!["ws2812".to_string(), "cpu".to_string()];
    assert_eq!(wanted_components(&p), (true, false));
}

#[test]
fn shutdown_continues_after_a_failure() {
    let hm: HardwareManager<u8, u8, u8, u8> = HardwareManager { rgb: Some(1), oled: Some(1), fan: Some(1), temperature: None };
    let mut run = hm.begin_shutdown();
    let mut tried = Vec::new();
    let mut kept = Vec::new();
    // The LEDs and the fan fail; the display shuts down.
    loop {
        match run.next() {
            ShutdownAction::ShutDown(c) => {
                tried.push(c);
                let failed = c != Component::Oled;
                kept.push(run.record(failed));
            }
            ShutdownAction::Finish { failed } => {
                assert!(failed);
                break;
            }
        }
    }
    assert_eq!(tried, vec![Component::Rgb, Component::Oled, Component::Fan]);
    assert_eq!(kept, vec![true, false, false]);
}

#[test]
fn shutdown_without_failure() {
    let hm: HardwareManager<u8, u8, u8, u8> = HardwareManager { rgb: None, oled: Some(1), fan: Some(1), temperature: None };
    let mut run = hm.begin_shutdown();
    assert_eq!(run.next(), ShutdownAction::ShutDown(Component::Oled));
    assert!(!run.record(false));
    assert_eq!(run.next(), ShutdownAction::ShutDown(Component::Fan));
    assert!(!run.record(false));
    assert_eq!(run.next(), ShutdownAction::Finish { failed: false });
}

#[test]
fn display_icons() {
    assert_eq!(
        network_icon(2, 51, false),
        vec![Shape::Line { from: (4, 52), to: (9, 57) }, Shape::Line { from: (9, 52), to: (4, 57) }]
    );
    let active = network_icon(2, 51, true);
    assert_eq!(active.len(), 5);
    assert_eq!(active[0], Shape::FilledCircle { corner: (5, 56), diameter: 2 });
    assert_eq!(active[4], Shape::Line { from: (8, 51), to: (9, 52) });
    assert_eq!(logo_icon(0, 3)[0], Shape::Line { from: (0, 9), to: (8, 9) });
    assert_eq!(cpu_icon(2, 15)[0], Shape::FilledRect { corner: (4, 16), width: 6, height: 6 });
    assert_eq!(cpu_icon(2, 15)[4], Shape::Line { from: (10, 20), to: (11, 20) });
    assert_eq!(memory_icon(2, 27)[0], Shape::OutlinedRect { corner: (3, 27), width: 8, height: 8 });
    assert_eq!(memory_icon(2, 27)[3], Shape::FilledRect { corner: (9, 29), width: 1, height: 4 });
    assert_eq!(temperature_icon(2, 39), vec![
        Shape::FilledCircle { corner: (5, 44), diameter: 3 },
        Shape::FilledRect { corner: (6, 39), width: 1, height: 6 },
        Shape::Line { from: (8, 41), to: (10, 41) },
    ]);
}
