//! The Pironman 5 Max.
use vstd::prelude::*;
use crate::json::{self, Json, JsonNumber, JsonValue};
use super::{entry, Variant};

verus! {

pub struct Pironman5Max;

/// The peripherals of the Max.
pub open spec fn max_peripherals() -> Seq<Seq<char>> {
    seq![
        "storage"@, "cpu"@, "network"@, "memory"@, "history"@, "log"@, "ws2812"@,
        "cpu_temperature"@, "gpu_temperature"@, "temperature_unit"@, "oled"@, "clear_history"@,
        "delete_log_file"@, "pwm_fan_speed"@, "gpio_fan_state"@, "gpio_fan_mode"@, "gpio_fan_led"@,
        "vibration_switch"@, "oled_sleep"@,
    ]
}

/// The default `system` configuration of the Max.
pub open spec fn max_default_config() -> Json {
    Json::Object(seq![
        ("data_interval"@, Json::Number(JsonNumber::PosInt(1))),
        ("rgb_color"@, Json::Str("#0a1aff"@)),
        ("rgb_brightness"@, Json::Number(JsonNumber::PosInt(50))),
        ("rgb_style"@, Json::Str("breathing"@)),
        ("rgb_speed"@, Json::Number(JsonNumber::PosInt(50))),
        ("rgb_enable"@, Json::Bool(true)),
        ("rgb_led_count"@, Json::Number(JsonNumber::PosInt(4))),
        ("temperature_unit"@, Json::Str("C"@)),
        ("oled_enable"@, Json::Bool(true)),
        ("oled_rotation"@, Json::Number(JsonNumber::PosInt(0))),
        ("oled_disk"@, Json::Str("total"@)),
        ("oled_network_interface"@, Json::Str("all"@)),
        ("gpio_fan_pin"@, Json::Number(JsonNumber::PosInt(6))),
        ("gpio_fan_mode"@, Json::Number(JsonNumber::PosInt(0))),
        ("gpio_fan_led"@, Json::Str("follow"@)),
        ("gpio_fan_led_pin"@, Json::Number(JsonNumber::PosInt(5))),
        ("oled_sleep_timeout"@, Json::Number(JsonNumber::PosInt(10))),
        ("vibration_switch_pin"@, Json::Number(JsonNumber::PosInt(26))),
        ("vibration_switch_pull_up"@, Json::Bool(false)),
    ])
}

impl Variant for Pironman5Max {
    fn name(&self) -> (r: &'static str)
        ensures
            r@ == "Pironman 5 Max"@,
    {
        "Pironman 5 Max"
    }

    fn id(&self) -> (r: &'static str)
        ensures
            r@ == "pironman5"@,
    {
        "pironman5"
    }

    fn product_version(&self) -> (r: &'static str)
        ensures
            r@ == ""@,
    {
        ""
    }

    fn peripherals(&self) -> (r: Vec<String>)
        ensures
            r@.map_values(|s: String| s@) == max_peripherals(),
    {
        let mut v: Vec<String> = Vec::new();
        v.push(String::from_str("storage"));
        v.push(String::from_str("cpu"));
        v.push(String::from_str("network"));
        v.push(String::from_str("memory"));
        v.push(String::from_str("history"));
        v.push(String::from_str("log"));
        v.push(String::from_str("ws2812"));
        v.push(String::from_str("cpu_temperature"));
        v.push(String::from_str("gpu_temperature"));
        v.push(String::from_str("temperature_unit"));
        v.push(String::from_str("oled"));
        v.push(String::from_str("clear_history"));
        v.push(String::from_str("delete_log_file"));
        v.push(String::from_str("pwm_fan_speed"));
        v.push(String::from_str("gpio_fan_state"));
        v.push(String::from_str("gpio_fan_mode"));
        v.push(String::from_str("gpio_fan_led"));
        v.push(String::from_str("vibration_switch"));
        v.push(String::from_str("oled_sleep"));
        assert(v@.map_values(|s: String| s@) =~= max_peripherals());
        v
    }

    fn system_default_config(&self) -> (r: JsonValue)
        ensures
            r@ == max_default_config(),
    {
        let mut v = Vec::new();
        v.push(entry("data_interval", JsonValue::from_u64(1)));
        v.push(entry("rgb_color", JsonValue::from_str_value("#0a1aff")));
        v.push(entry("rgb_brightness", JsonValue::from_u64(50)));
        v.push(entry("rgb_style", JsonValue::from_str_value("breathing")));
        v.push(entry("rgb_speed", JsonValue::from_u64(50)));
        v.push(entry("rgb_enable", JsonValue::from_bool(true)));
        v.push(entry("rgb_led_count", JsonValue::from_u64(4)));
        v.push(entry("temperature_unit", JsonValue::from_str_value("C")));
        v.push(entry("oled_enable", JsonValue::from_bool(true)));
        v.push(entry("oled_rotation", JsonValue::from_u64(0)));
        v.push(entry("oled_disk", JsonValue::from_str_value("total")));
        v.push(entry("oled_network_interface", JsonValue::from_str_value("all")));
        v.push(entry("gpio_fan_pin", JsonValue::from_u64(6)));
        v.push(entry("gpio_fan_mode", JsonValue::from_u64(0)));
        v.push(entry("gpio_fan_led", JsonValue::from_str_value("follow")));
        v.push(entry("gpio_fan_led_pin", JsonValue::from_u64(5)));
        v.push(entry("oled_sleep_timeout", JsonValue::from_u64(10)));
        v.push(entry("vibration_switch_pin", JsonValue::from_u64(26)));
        v.push(entry("vibration_switch_pull_up", JsonValue::from_bool(false)));
        proof {
            json::lemma_view_entries(v@);
            assert(json::view_entries(v@) =~= max_default_config()->Object_0);
        }
        JsonValue::Object(v)
    }

    fn dt_overlays(&self) -> (r: Vec<String>)
        ensures
            r@.map_values(|s: String| s@) == seq!["sunfounder-pironman5.dtbo"@],
    {
        let mut v: Vec<String> = Vec::new();
        v.push(String::from_str("sunfounder-pironman5.dtbo"));
        assert(v@.map_values(|s: String| s@) =~= seq!["sunfounder-pironman5.dtbo"@]);
        v
    }
}

} // verus!
