use pironman5::json::{JsonEntry, JsonNumber, JsonValue};
use pironman5::utils::{has_common_items, is_any_included, is_included, merge_dict};

fn num(n: u64) -> JsonValue {
    JsonValue::Number(JsonNumber::PosInt(n))
}

fn obj(entries: Vec<(&str, JsonValue)>) -> JsonValue {
    JsonValue::Object(
        entries
            .into_iter()
            .map(|(k, v)| JsonEntry { key: k.to_string(), value: v })
            .collect(),
    )
}

fn strings(items: &[&str]) -> Vec<String> {
    items.iter().map(|s| s.to_string()).collect()
}

#[test]
fn test_merge_dict() {
    let dict1 = obj(vec![("a", num(1)), ("b", obj(vec![("c", num(2))]))]);
    let dict2 = obj(vec![("b", obj(vec![("d", num(3))])), ("e", num(4))]);
    let result = merge_dict(&dict1, &dict2);
    assert_eq!(
        result,
        obj(vec![
            ("a", num(1)),
            ("b", obj(vec![("c", num(2)), ("d", num(3))])),
            ("e", num(4)),
        ])
    );
}

#[test]
fn test_is_included() {
    let list = vec!["a".to_string(), "b".to_string(), "c".to_string()];
    assert!(is_included(&list, "b"));
    assert!(!is_included(&list, "d"));
}

#[test]
fn merge_arrays_concatenate() {
    let a = JsonValue::Array(vec![num(1), num(2)]);
    let b = JsonValue::Array(vec![num(3)]);
    assert_eq!(merge_dict(&a, &b), JsonValue::Array(vec![num(1), num(2), num(3)]));
}

#[test]
fn merge_scalar_second_wins() {
    let a = obj(vec![("x", num(1))]);
    let b = JsonValue::Str("y".to_string());
    assert_eq!(merge_dict(&a, &b), JsonValue::Str("y".to_string()));
    let c = JsonValue::Array(vec![num(1)]);
    let d = obj(vec![("k", JsonValue::Bool(true))]);
    assert_eq!(merge_dict(&c, &d), obj(vec![("k", JsonValue::Bool(true))]));
}

#[test]
fn merge_nested_value_replaced_when_not_object() {
    let a = obj(vec![("s", obj(vec![("rgb_speed", num(50)), ("rgb_enable", JsonValue::Bool(true))]))]);
    let b = obj(vec![("s", obj(vec![("rgb_speed", num(80))]))]);
    assert_eq!(
        merge_dict(&a, &b),
        obj(vec![("s", obj(vec![("rgb_speed", num(80)), ("rgb_enable", JsonValue::Bool(true))]))])
    );
}

#[test]
fn merge_empty_identities() {
    let a = obj(vec![("a", num(1)), ("b", JsonValue::Null)]);
    assert_eq!(merge_dict(&a, &obj(vec![])), a);
    assert_eq!(merge_dict(&obj(vec![]), &a), a);
}

#[test]
fn common_items() {
    let a = strings(&["ws2812", "oled"]);
    let b = strings(&["fan", "oled"]);
    let c = strings(&["fan"]);
    assert!(has_common_items(&a, &b));
    assert!(has_common_items(&b, &a));
    assert!(!has_common_items(&a, &c));
    assert!(!has_common_items(&a, &[]));
    assert!(is_any_included(&a, &b));
    assert!(!is_any_included(&c, &a));
}
