use alvr_session::json::{JsonMap, JsonNumber, JsonValue};
use alvr_session::parse::parse_json;

#[test]
fn parses_every_kind_of_value() {
    let value = parse_json(
        r#" {"n": null, "b": true, "p": 18446744073709551615, "m": -3, "f": -0.5, "s": "aé", "l": [1, [], {}]} "#,
    )
    .unwrap();
    assert!(matches!(value.member("n"), JsonValue::Null));
    assert!(matches!(value.member("b"), JsonValue::Bool(true)));
    assert!(matches!(
        value.member("p"),
        JsonValue::Number(JsonNumber::PosInt(18446744073709551615))
    ));
    assert!(matches!(value.member("m"), JsonValue::Number(JsonNumber::NegInt(-3))));
    match value.member("f") {
        JsonValue::Number(JsonNumber::Float(bits)) => assert_eq!(f64::from_bits(*bits), -0.5),
        _ => panic!("not a float"),
    }
    match value.member("s") {
        JsonValue::String(s) => assert_eq!(s, "a\u{e9}"),
        _ => panic!("not a string"),
    }
    assert!(matches!(value.member("l").item(0), JsonValue::Number(JsonNumber::PosInt(1))));
    assert!(matches!(value.member("l").item(1), JsonValue::Array(_)));
    assert!(matches!(value.member("l").item(2), JsonValue::Object(_)));
    assert!(value.member("l").get_item(3).is_none());
    assert!(matches!(value.member("l").item(3), JsonValue::Null));
}

#[test]
fn arrays_keep_their_order() {
    let value = parse_json("[1, 2, 3]").unwrap();
    for i in 0..3 {
        match value.item(i) {
            JsonValue::Number(JsonNumber::PosInt(n)) => assert_eq!(*n, i as u64 + 1),
            _ => panic!("not an integer"),
        }
    }
}

#[test]
fn refuses_what_is_not_json() {
    assert!(parse_json("").is_err());
    assert!(parse_json("{").is_err());
    assert!(parse_json("{'a': 1}").is_err());
    assert!(parse_json("1 2").is_err());
    let deep = "[".repeat(200) + &"]".repeat(200);
    assert!(parse_json(&deep).is_err());
}

#[test]
fn later_member_of_a_text_counts() {
    let value = parse_json(r#"{"a": 1, "a": 2}"#).unwrap();
    assert!(matches!(value.member("a"), JsonValue::Number(JsonNumber::PosInt(2))));
    match value {
        JsonValue::Object(map) => assert_eq!(map.len(), 1),
        _ => panic!("not an object"),
    }
}

#[test]
fn inserting_replaces() {
    let mut map = JsonMap::new();
    map.insert("a".to_string(), JsonValue::Bool(false));
    map.insert("b".to_string(), JsonValue::Null);
    map.insert("a".to_string(), JsonValue::Bool(true));
    assert_eq!(map.len(), 2);
    assert!(matches!(map.get("a"), Some(JsonValue::Bool(true))));
    assert!(matches!(map.get("b"), Some(JsonValue::Null)));
    assert!(map.get("c").is_none());
    let copy = map.clone();
    assert_eq!(copy.len(), 2);
    assert!(matches!(copy.get("a"), Some(JsonValue::Bool(true))));
    let (name, value) = copy.entry(1);
    assert_eq!(name, "b");
    assert!(matches!(value, JsonValue::Null));
}

#[test]
fn members_of_other_values_are_missing() {
    assert!(JsonValue::Null.get("a").is_none());
    assert!(JsonValue::Array(vec![JsonValue::Null]).get("a").is_none());
    assert!(matches!(JsonValue::Bool(true).member("a"), JsonValue::Null));
    assert!(JsonValue::Object(JsonMap::new()).get_item(0).is_none());
}

#[test]
fn kinds_of_values() {
    let number = |n| JsonValue::Number(n);
    assert!(number(JsonNumber::PosInt(i64::MAX as u64)).is_i64());
    assert!(!number(JsonNumber::PosInt(i64::MAX as u64 + 1)).is_i64());
    assert!(number(JsonNumber::NegInt(i64::MIN)).is_i64());
    assert!(!number(JsonNumber::Float(0)).is_i64());
    assert!(number(JsonNumber::Float(0)).is_f64());
    assert!(!number(JsonNumber::PosInt(0)).is_f64());
    assert!(JsonValue::Bool(false).is_boolean());
    assert!(!JsonValue::Null.is_boolean());
    assert!(JsonValue::String(String::new()).is_string());
    assert!(!JsonValue::Null.is_string());
}
