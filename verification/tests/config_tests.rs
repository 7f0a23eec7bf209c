use pironman5::config::{
    build_config, configured_debug_level, empty_config, get_system_setting, update_system_config,
    upgrade_config, wrap_system,
};
use pironman5::json::{JsonEntry, JsonNumber, JsonValue};
use pironman5::variants::{Pironman5Max, Pironman5Mini, Variant};

fn num(n: u64) -> JsonValue {
    JsonValue::Number(JsonNumber::PosInt(n))
}

fn s(v: &str) -> JsonValue {
    JsonValue::Str(v.to_string())
}

fn obj(entries: Vec<(&str, JsonValue)>) -> JsonValue {
    JsonValue::Object(
        entries
            .into_iter()
            .map(|(k, v)| JsonEntry { key: k.to_string(), value: v })
            .collect(),
    )
}

#[test]
fn empty_config_has_empty_system() {
    assert_eq!(empty_config(), obj(vec![("system", obj(vec![]))]));
}

#[test]
fn upgrade_moves_auto_under_system() {
    let old = obj(vec![("auto", obj(vec![("rgb_speed", num(10))])), ("other", num(1))]);
    assert_eq!(upgrade_config(old), obj(vec![("system", obj(vec![("rgb_speed", num(10))]))]));
    let current = obj(vec![("system", obj(vec![("rgb_speed", num(10))]))]);
    assert_eq!(upgrade_config(current.duplicate()), current);
    let twice = upgrade_config(upgrade_config(obj(vec![("auto", num(3))])));
    assert_eq!(twice, obj(vec![("system", num(3))]));
}

#[test]
fn build_without_stored_config_uses_defaults() {
    let config = build_config(Pironman5Mini.system_default_config(), None);
    let sys = get_system_setting(&config, "debug_level").unwrap();
    assert_eq!(sys, &s("INFO"));
    assert_eq!(get_system_setting(&config, "rgb_style").unwrap(), &s("rainbow"));
    assert_eq!(configured_debug_level(&config), "INFO");
}

#[test]
fn build_with_stored_config_overrides_defaults() {
    let stored = obj(vec![(
        "system",
        obj(vec![("rgb_style", s("solid")), ("debug_level", s("DEBUG")), ("extra", num(7))]),
    )]);
    let config = build_config(Pironman5Max.system_default_config(), Some(stored));
    assert_eq!(get_system_setting(&config, "rgb_style").unwrap(), &s("solid"));
    assert_eq!(get_system_setting(&config, "rgb_color").unwrap(), &s("#0a1aff"));
    assert_eq!(get_system_setting(&config, "extra").unwrap(), &num(7));
    assert_eq!(configured_debug_level(&config), "DEBUG");
}

#[test]
fn build_with_old_layout_upgrades_first() {
    let stored = obj(vec![("auto", obj(vec![("rgb_speed", num(90))]))]);
    let config = build_config(Pironman5Max.system_default_config(), Some(stored));
    assert_eq!(get_system_setting(&config, "rgb_speed").unwrap(), &num(90));
}

#[test]
fn debug_level_defaults_when_not_text() {
    let config = obj(vec![("system", obj(vec![("debug_level", num(3))]))]);
    assert_eq!(configured_debug_level(&config), "INFO");
    assert_eq!(configured_debug_level(&JsonValue::Null), "INFO");
}

#[test]
fn update_writes_new_settings_and_keeps_others() {
    let current = obj(vec![("system", obj(vec![("a", num(1)), ("b", num(2))])), ("x", num(9))]);
    let update = wrap_system(obj(vec![("b", num(20)), ("c", num(30))]));
    let result = update_system_config(current, &update);
    assert_eq!(
        result,
        obj(vec![("system", obj(vec![("a", num(1)), ("b", num(20)), ("c", num(30))])), ("x", num(9))])
    );
}

#[test]
fn update_without_system_objects_keeps_document() {
    let current = obj(vec![("system", num(1))]);
    let update = wrap_system(obj(vec![("b", num(20))]));
    assert_eq!(update_system_config(current.duplicate(), &update), current);
    let current2 = obj(vec![("system", obj(vec![]))]);
    assert_eq!(update_system_config(current2.duplicate(), &obj(vec![])), current2);
}
