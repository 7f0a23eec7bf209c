//! The Pironman 5 Mini.
use vstd::prelude::*;
use crate::json::{self, Json, JsonNumber, JsonValue};
use super::{entry, Variant};

verus! {

pub struct Pironman5Mini;

/// The peripherals of the Mini.
pub open spec fn mini_peripherals() -> Seq<Seq<char>> {
    seq![
        "storage"@, "cpu"@, "network"@, "memory"@, "history"@, "log"@, "ws2812"@,
        "cpu_temperature"@, "gpu_temperature"@, "temperature_unit"@, "clear_history"@,
        "delete_log_file"@, "pwm_fan_speed"@, "gpio_fan_state"@, "gpio_fan_mode"@, "gpio_fan_led"@,
    ]
}

/// The default `system` configuration of the Mini.
pub open spec fn mini_default_config() -> Json {
    Json::Object(seq![
        ("data_interval"@, Json::Number(JsonNumber::PosInt(1))),
        ("temperature_unit"@, Json::Str("C"@)),
        ("rgb_led_count"@, Json::Number(JsonNumber::PosInt(4))),
        ("rgb_enable"@, Json::Bool(true)),
        ("rgb_color"@, Json::Str("#ff00ff"@)),
        ("rgb_brightness"@, Json::Number(JsonNumber::PosInt(50))),
        ("rgb_style"@, Json::Str("rainbow"@)),
        ("rgb_speed"@, Json::Number(JsonNumber::PosInt(50))),
        ("gpio_fan_pin"@, Json::Number(JsonNumber::PosInt(6))),
        ("gpio_fan_mode"@, Json::Number(JsonNumber::PosInt(0))),
        ("gpio_fan_led"@, Json::Str("follow"@)),
        ("gpio_fan_led_pin"@, Json::Number(JsonNumber::PosInt(5))),
    ])
}

impl Variant for Pironman5Mini {
    fn name(&self) -> (r: &'static str)
        ensures
            r@ == "Pironman 5 Mini"@,
    {
        "Pironman 5 Mini"
    }

    fn id(&self) -> (r: &'static str)
        ensures
            r@ == "pironman5-mini"@,
    {
        "pironman5-mini"
    }

    fn product_version(&self) -> (r: &'static str)
        ensures
            r@ == ""@,
    {
        ""
    }

    fn peripherals(&self) -> (r: Vec<String>)
        ensures
            r@.map_values(|s: String| s@) == mini_peripherals(),
    {
        let mut v: Vec<String> = Vec::new();
        v.push(String::from_str("storage"));
        v.push(String::from_str("cpu"));
        v.push(String::from_str("network"));
        v.push(String::from_str("memory"));
        v.push(String::from_str("history"));
        v.push(String::from_str("log"));
        v.push(String::from_str("ws2812"));
        v.push(String::from_str("cpu_temperature"));
        v.push(String::from_str("gpu_temperature"));
        v.push(String::from_str("temperature_unit"));
        v.push(String::from_str("clear_history"));
        v.push(String::from_str("delete_log_file"));
        v.push(String::from_str("pwm_fan_speed"));
        v.push(String::from_str("gpio_fan_state"));
        v.push(String::from_str("gpio_fan_mode"));
        v.push(String::from_str("gpio_fan_led"));
        assert(v@.map_values(|s: String| s@) =~= mini_peripherals());
        v
    }

    fn system_default_config(&self) -> (r: JsonValue)
        ensures
            r@ == mini_default_config(),
    {
        let mut v = Vec::new();
        v.push(entry("data_interval", JsonValue::from_u64(1)));
        v.push(entry("temperature_unit", JsonValue::from_str_value("C")));
        v.push(entry("rgb_led_count", JsonValue::from_u64(4)));
        v.push(entry("rgb_enable", JsonValue::from_bool(true)));
        v.push(entry("rgb_color", JsonValue::from_str_value("#ff00ff")));
        v.push(entry("rgb_brightness", JsonValue::from_u64(50)));
        v.push(entry("rgb_style", JsonValue::from_str_value("rainbow")));
        v.push(entry("rgb_speed", JsonValue::from_u64(50)));
        v.push(entry("gpio_fan_pin", JsonValue::from_u64(6)));
        v.push(entry("gpio_fan_mode", JsonValue::from_u64(0)));
        v.push(entry("gpio_fan_led", JsonValue::from_str_value("follow")));
        v.push(entry("gpio_fan_led_pin", JsonValue::from_u64(5)));
        proof {
            json::lemma_view_entries(v@);
            assert(json::view_entries(v@) =~= mini_default_config()->Object_0);
        }
        JsonValue::Object(v)
    }

    fn dt_overlays(&self) -> (r: Vec<String>)
        ensures
            r@.map_values(|s: String| s@) == seq!["sunfounder-pironman5mini.dtbo"@],
    {
        let mut v: Vec<String> = Vec::new();
        v.push(String::from_str("sunfounder-pironman5mini.dtbo"));
        assert(v@.map_values(|s: String| s@) =~= seq!["sunfounder-pironman5mini.dtbo"@]);
        v
    }
}

} // verus!
