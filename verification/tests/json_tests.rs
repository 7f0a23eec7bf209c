use pironman5::json::{JsonEntry, JsonNumber, JsonValue};

fn obj(entries: Vec<(&str, JsonValue)>) -> JsonValue {
    JsonValue::Object(
        entries
            .into_iter()
            .map(|(k, v)| JsonEntry { key: k.to_string(), value: v })
            .collect(),
    )
}

#[test]
fn get_and_accessors() {
    let v = obj(vec![
        ("n", JsonValue::from_u64(5)),
        ("neg", JsonValue::Number(JsonNumber::NegInt(-5))),
        ("s", JsonValue::from_str_value("hi")),
        ("b", JsonValue::from_bool(false)),
    ]);
    assert_eq!(v.get("n").unwrap().as_u64(), Some(5));
    assert_eq!(v.get("neg").unwrap().as_u64(), None);
    assert_eq!(v.get("s").unwrap().as_str(), Some("hi"));
    assert_eq!(v.get("b").unwrap().as_bool(), Some(false));
    assert_eq!(v.get("s").unwrap().as_u64(), None);
    assert!(v.get("missing").is_none());
    assert!(JsonValue::from_u64(1).get("n").is_none());
    assert!(v.is_object());
    assert!(!JsonValue::Null.is_object());
}

#[test]
fn set_field_replaces_or_appends() {
    let mut v = obj(vec![("a", JsonValue::from_u64(1))]);
    v.set_field("b", JsonValue::from_u64(2));
    v.set_field("a", JsonValue::from_u64(3));
    assert_eq!(v, obj(vec![("a", JsonValue::from_u64(3)), ("b", JsonValue::from_u64(2))]));
    let mut n = JsonValue::Null;
    n.set_field("k", JsonValue::from_bool(true));
    assert_eq!(n, obj(vec![("k", JsonValue::from_bool(true))]));
}

#[test]
fn duplicate_is_equal() {
    let v = obj(vec![
        ("a", JsonValue::Array(vec![JsonValue::Null, JsonValue::Number(JsonNumber::Float(0x4000000000000000))])),
        ("b", obj(vec![("c", JsonValue::from_str_value("x"))])),
    ]);
    assert_eq!(v.duplicate(), v);
    assert_eq!(JsonValue::new_object(), obj(vec![]));
}

#[test]
fn well_formed_values() {
    let n = |x: u64| JsonValue::from_u64(x);
    assert!(JsonValue::Null.is_well_formed());
    assert!(obj(vec![("a", n(1)), ("b", n(2))]).is_well_formed());
    assert!(!obj(vec![("a", n(1)), ("a", n(2))]).is_well_formed());
    assert!(!JsonValue::Array(vec![obj(vec![("x", n(1)), ("y", n(1)), ("x", n(3))])]).is_well_formed());
    assert!(!obj(vec![("outer", obj(vec![("k", n(1)), ("k", n(1))]))]).is_well_formed());
    let a = obj(vec![("a", n(1)), ("c", obj(vec![("x", n(1))]))]);
    let b = obj(vec![("b", n(2)), ("c", obj(vec![("y", n(2))]))]);
    let m = pironman5::utils::merge_dict(&a, &b);
    assert!(m.is_well_formed());
    let mut v = obj(vec![("a", n(1))]);
    v.set_field("a", n(5));
    assert!(v.is_well_formed());
    assert_eq!(v, obj(vec![("a", n(5))]));
}
