use pironman5::cli::{parse_bool, plan, Cli, CliAction, CliError, Commands};
use pironman5::json::{JsonEntry, JsonNumber, JsonValue};

fn blank() -> Cli {
    Cli {
        command: None,
        version: false,
        config: false,
        debug_level: None,
        config_path: None,
        rgb_color: None,
        rgb_brightness: None,
        rgb_style: None,
        rgb_speed: None,
        rgb_enable: None,
        rgb_led_count: None,
        temperature_unit: None,
        gpio_fan_mode: None,
        gpio_fan_pin: None,
        gpio_fan_led: None,
        gpio_fan_led_pin: None,
        oled_enable: None,
        oled_disk: None,
        oled_network_interface: None,
        oled_rotation: None,
        vibration_switch_pin: None,
        vibration_switch_pull_up: None,
        oled_sleep_timeout: None,
    }
}

fn obj(entries: Vec<(&str, JsonValue)>) -> JsonValue {
    JsonValue::Object(
        entries
            .into_iter()
            .map(|(k, v)| JsonEntry { key: k.to_string(), value: v })
            .collect(),
    )
}

fn num(n: u64) -> JsonValue {
    JsonValue::Number(JsonNumber::PosInt(n))
}

#[test]
fn parse_bool_words() {
    for w in ["true", "TRUE", "1", "on", "Yes"] {
        assert_eq!(parse_bool(w), Some(true));
    }
    for w in ["false", "0", "OFF", "no"] {
        assert_eq!(parse_bool(w), Some(false));
    }
    assert_eq!(parse_bool("maybe"), None);
    assert_eq!(parse_bool(""), None);
}

#[test]
fn version_and_config_first() {
    let mut c = blank();
    c.version = true;
    c.config = true;
    assert!(matches!(plan(&c), CliAction::ShowVersion));
    let mut c = blank();
    c.config = true;
    match plan(&c) {
        CliAction::ShowConfig(p) => assert_eq!(p, "/opt/pironman5/config.json"),
        _ => panic!("expected ShowConfig"),
    }
    let mut c = blank();
    c.config = true;
    c.config_path = Some("/tmp/x.json".to_string());
    match plan(&c) {
        CliAction::ShowConfig(p) => assert_eq!(p, "/tmp/x.json"),
        _ => panic!("expected ShowConfig"),
    }
}

#[test]
fn no_options_shows_help() {
    match plan(&blank()) {
        CliAction::Configure(run) => {
            assert!(run.show_help);
            assert!(run.changes.is_empty());
            assert!(run.update.is_none());
            assert!(run.error.is_none());
        }
        _ => panic!("expected Configure"),
    }
    let mut c = blank();
    c.command = Some(Commands::Start);
    match plan(&c) {
        CliAction::Configure(run) => {
            assert!(!run.show_help);
            assert_eq!(run.command, Some(Commands::Start));
        }
        _ => panic!("expected Configure"),
    }
}

#[test]
fn settings_and_messages() {
    let mut c = blank();
    c.debug_level = Some("debug".to_string());
    c.rgb_color = Some("00aabb".to_string());
    c.rgb_brightness = Some(75);
    c.rgb_enable = Some("Yes".to_string());
    c.gpio_fan_led = Some("FOLLOW".to_string());
    c.oled_rotation = Some(180);
    c.oled_sleep_timeout = Some(120);
    match plan(&c) {
        CliAction::Configure(run) => {
            let msgs: Vec<&str> = run.changes.iter().map(|ch| ch.message.as_str()).collect();
            assert_eq!(
                msgs,
                vec![
                    "Set debug level: DEBUG",
                    "Set RGB color: #00aabb",
                    "Set RGB brightness: 75",
                    "Set RGB enable: true",
                    "Set GPIO fan LED state: follow",
                    "Set OLED rotation: 180",
                    "Set OLED sleep timeout: 120",
                ]
            );
            assert!(run.error.is_none());
            assert!(!run.show_help);
            let expected = obj(vec![(
                "system",
                obj(vec![
                    ("debug_level", JsonValue::Str("DEBUG".to_string())),
                    ("rgb_color", JsonValue::Str("#00aabb".to_string())),
                    ("rgb_brightness", num(75)),
                    ("rgb_enable", JsonValue::Bool(true)),
                    ("gpio_fan_led", JsonValue::Str("follow".to_string())),
                    ("oled_rotation", num(180)),
                    ("oled_sleep_timeout", num(120)),
                ]),
            )]);
            assert_eq!(run.update.unwrap(), expected);
        }
        _ => panic!("expected Configure"),
    }
}

#[test]
fn first_refusal_stops_the_settings() {
    let mut c = blank();
    c.rgb_style = Some("rainbow".to_string());
    c.rgb_speed = Some(101);
    c.temperature_unit = Some("K".to_string());
    match plan(&c) {
        CliAction::Configure(run) => {
            assert_eq!(run.changes.len(), 1);
            assert_eq!(run.changes[0].message, "Set RGB style: rainbow");
            assert_eq!(run.error, Some(CliError::RgbSpeedRange));
            assert!(run.update.is_none());
            assert!(!run.show_help);
        }
        _ => panic!("expected Configure"),
    }
}

#[test]
fn each_refusal() {
    let cases: Vec<(Box<dyn Fn(&mut Cli)>, CliError)> = vec![
        (Box::new(|c: &mut Cli| c.rgb_color = Some("#00aabb".to_string())), CliError::InvalidRgbColor),
        (Box::new(|c: &mut Cli| c.rgb_color = Some("zzzzzz".to_string())), CliError::InvalidRgbColor),
        (Box::new(|c: &mut Cli| c.rgb_color = Some("+f0000".to_string())), CliError::InvalidRgbColor),
        (Box::new(|c: &mut Cli| c.rgb_color = Some("\u{e9}\u{e9}\u{e9}".to_string())), CliError::InvalidRgbColor),
        (Box::new(|c: &mut Cli| c.rgb_brightness = Some(101)), CliError::RgbBrightnessRange),
        (Box::new(|c: &mut Cli| c.rgb_speed = Some(200)), CliError::RgbSpeedRange),
        (Box::new(|c: &mut Cli| c.rgb_enable = Some("yep".to_string())), CliError::InvalidRgbEnable),
        (Box::new(|c: &mut Cli| c.rgb_led_count = Some(0)), CliError::RgbLedCountRange),
        (Box::new(|c: &mut Cli| c.temperature_unit = Some("c".to_string())), CliError::TemperatureUnit),
        (Box::new(|c: &mut Cli| c.gpio_fan_led = Some("blink".to_string())), CliError::GpioFanLedState),
        (Box::new(|c: &mut Cli| c.oled_enable = Some("2".to_string())), CliError::InvalidOledEnable),
        (Box::new(|c: &mut Cli| c.oled_rotation = Some(90)), CliError::OledRotation),
        (Box::new(|c: &mut Cli| c.vibration_switch_pin = Some(41)), CliError::VibrationSwitchPinRange),
        (Box::new(|c: &mut Cli| c.vibration_switch_pull_up = Some("x".to_string())), CliError::InvalidVibrationSwitchPullUp),
    ];
    for (set, err) in cases {
        let mut c = blank();
        set(&mut c);
        match plan(&c) {
            CliAction::Configure(run) => {
                assert_eq!(run.error, Some(err));
                assert!(run.changes.is_empty());
            }
            _ => panic!("expected Configure"),
        }
    }
    assert_eq!(CliError::OledRotation.message(), "OLED rotation must be 0 or 180");
    assert_eq!(
        CliError::InvalidRgbColor.message(),
        "Invalid RGB color format. Use hex format without # (e.g. 00aabb)"
    );
}

#[test]
fn boundary_values_accepted() {
    let mut c = blank();
    c.rgb_brightness = Some(100);
    c.rgb_speed = Some(0);
    c.rgb_led_count = Some(1);
    c.temperature_unit = Some("F".to_string());
    c.gpio_fan_mode = Some(2);
    c.gpio_fan_pin = Some(6);
    c.gpio_fan_led_pin = Some(5);
    c.oled_enable = Some("off".to_string());
    c.oled_disk = Some("total".to_string());
    c.oled_network_interface = Some("wlan0".to_string());
    c.oled_rotation = Some(0);
    c.vibration_switch_pin = Some(40);
    c.vibration_switch_pull_up = Some("1".to_string());
    match plan(&c) {
        CliAction::Configure(run) => {
            assert!(run.error.is_none());
            let msgs: Vec<&str> = run.changes.iter().map(|ch| ch.message.as_str()).collect();
            assert_eq!(
                msgs,
                vec![
                    "Set RGB brightness: 100",
                    "Set RGB speed: 0",
                    "Set RGB LED count: 1",
                    "Set temperature unit: F",
                    "Set GPIO fan mode: 2",
                    "Set GPIO fan pin: 6",
                    "Set GPIO fan LED pin: 5",
                    "Set OLED enable: false",
                    "Set OLED disk: total",
                    "Set OLED network interface: wlan0",
                    "Set OLED rotation: 0",
                    "Set vibration switch pin: 40",
                    "Set vibration switch pull up: true",
                ]
            );
        }
        _ => panic!("expected Configure"),
    }
}
