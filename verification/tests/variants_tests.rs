use pironman5::variants::{
    format_part_number, get_active_variant, get_device_tree_path, get_force_variant, get_part_number,
    get_variant, get_variant_id_and_version, is_hat_entry, read_device_tree_file, split_part_number,
    Pironman5Max, Pironman5Mini, Variant, VariantKind,
};

#[test]
fn variant_by_id_and_version() {
    assert_eq!(get_variant("0306", "10"), VariantKind::Base);
    assert_eq!(get_variant("0306", "11"), VariantKind::Max);
    assert_eq!(get_variant("0308", "10"), VariantKind::Mini);
    assert_eq!(get_variant("1234", "10"), VariantKind::Base);
}

#[test]
fn forced_variant() {
    assert_eq!(get_force_variant(Some(" max\n")), Some(VariantKind::Max));
    assert_eq!(get_force_variant(Some("mini")), Some(VariantKind::Mini));
    assert_eq!(get_force_variant(Some("base")), Some(VariantKind::Base));
    assert_eq!(get_force_variant(Some("Max")), None);
    assert_eq!(get_force_variant(None), None);
}

#[test]
fn part_numbers_split_at_one_v() {
    assert_eq!(split_part_number("0306V10"), Some(("0306".to_string(), "10".to_string())));
    assert_eq!(split_part_number("V"), Some((String::new(), String::new())));
    assert_eq!(split_part_number("0306"), None);
    assert_eq!(split_part_number("03V06V10"), None);
}

#[test]
fn id_and_version_sources() {
    assert_eq!(
        get_variant_id_and_version(Some("0308V11"), Some("0306V10")),
        ("0308".to_string(), "11".to_string())
    );
    assert_eq!(
        get_variant_id_and_version(Some("bad"), Some("0306V12")),
        ("0306".to_string(), "12".to_string())
    );
    assert_eq!(get_variant_id_and_version(None, None), ("0306".to_string(), "10".to_string()));
    assert_eq!(get_active_variant(Some("mini"), Some("0306V12"), None), VariantKind::Mini);
    assert_eq!(get_active_variant(Some("other"), Some("0306V12"), None), VariantKind::Max);
    assert_eq!(get_active_variant(None, None, None), VariantKind::Base);
}

#[test]
fn device_tree_values() {
    assert_eq!(read_device_tree_file(Some("0306\0\0")), Some(0x306));
    assert_eq!(read_device_tree_file(Some("+1f")), Some(0x1f));
    assert_eq!(read_device_tree_file(Some("xyz")), None);
    assert_eq!(read_device_tree_file(Some("")), None);
    assert_eq!(read_device_tree_file(None), None);
    assert_eq!(format_part_number(774, 16), "0774V16");
    assert_eq!(format_part_number(12345, 7), "12345V07");
    assert_eq!(get_part_number(Some("0306\0"), Some("10")), Some("0774V16".to_string()));
    assert_eq!(get_part_number(Some("0306"), None), None);
    assert!(is_hat_entry("hat"));
    assert!(is_hat_entry("hat_0"));
    assert!(!is_hat_entry("ha"));
    assert_eq!(get_device_tree_path(true, true), Some("/proc/device-tree".to_string()));
    assert_eq!(get_device_tree_path(false, true), Some("/device-tree".to_string()));
    assert_eq!(get_device_tree_path(false, false), None);
}

#[test]
fn variant_data() {
    let max = Pironman5Max;
    assert_eq!(max.name(), "Pironman 5 Max");
    assert_eq!(max.id(), "pironman5");
    assert_eq!(max.product_version(), "");
    assert_eq!(max.peripherals().len(), 19);
    assert!(max.peripherals().contains(&"oled".to_string()));
    assert_eq!(max.dt_overlays(), vec!["sunfounder-pironman5.dtbo".to_string()]);
    let mini = Pironman5Mini;
    assert_eq!(mini.name(), "Pironman 5 Mini");
    assert_eq!(mini.id(), "pironman5-mini");
    assert_eq!(mini.peripherals().len(), 16);
    assert!(!mini.peripherals().contains(&"oled".to_string()));
    assert_eq!(mini.dt_overlays(), vec!["sunfounder-pironman5mini.dtbo".to_string()]);
    let cfg = mini.system_default_config();
    assert_eq!(cfg.get("rgb_color").unwrap().as_str(), Some("#ff00ff"));
    assert_eq!(cfg.get("gpio_fan_led_pin").unwrap().as_u64(), Some(5));
    let cfg = max.system_default_config();
    assert_eq!(cfg.get("vibration_switch_pin").unwrap().as_u64(), Some(26));
    assert_eq!(cfg.get("vibration_switch_pull_up").unwrap().as_bool(), Some(false));
}
