use alvr_session::extrapolation::extrapolate_settings_cache;
use alvr_session::json::{JsonNumber, JsonValue};
use alvr_session::parse::parse_json;
use alvr_session::schema::SchemaNode;
use alvr_session::settings::{is_readable, json_cache_to_settings};

fn json(text: &str) -> JsonValue {
    parse_json(text).unwrap()
}

fn plain(value: &JsonValue) -> serde_json::Value {
    match value {
        JsonValue::Null => serde_json::Value::Null,
        JsonValue::Bool(b) => serde_json::Value::Bool(*b),
        JsonValue::Number(JsonNumber::PosInt(n)) => serde_json::Value::from(*n),
        JsonValue::Number(JsonNumber::NegInt(n)) => serde_json::Value::from(*n),
        JsonValue::Number(JsonNumber::Float(bits)) => serde_json::Value::from(f64::from_bits(*bits)),
        JsonValue::String(s) => serde_json::Value::String(s.clone()),
        JsonValue::Array(items) => serde_json::Value::Array(items.iter().map(plain).collect()),
        JsonValue::Object(map) => {
            let mut members = serde_json::Map::new();
            for i in 0..map.len() {
                let (name, value) = map.entry(i);
                members.insert(name.clone(), plain(value));
            }
            serde_json::Value::Object(members)
        }
    }
}

fn assert_json(value: &JsonValue, text: &str) {
    let expected: serde_json::Value = serde_json::from_str(text).unwrap();
    assert_eq!(plain(value), expected);
}

fn carried(old: &str, new: &str, schema: &SchemaNode) -> JsonValue {
    extrapolate_settings_cache(&json(old), &json(new), schema)
}

fn settings(cache: &str, schema: &SchemaNode) -> JsonValue {
    let cache = json(cache);
    assert!(is_readable(&cache, schema));
    json_cache_to_settings(&cache, schema)
}

fn section(entries: Vec<(&str, Option<SchemaNode>)>) -> SchemaNode {
    SchemaNode::Section {
        entries: entries.into_iter().map(|(n, s)| (n.to_string(), s)).collect(),
    }
}

fn choice(variants: Vec<(&str, Option<SchemaNode>)>) -> SchemaNode {
    SchemaNode::Choice {
        variants: variants.into_iter().map(|(n, s)| (n.to_string(), s)).collect(),
    }
}

fn optional(content: SchemaNode) -> SchemaNode {
    SchemaNode::Optional { content: Box::new(content) }
}

fn switch(content: SchemaNode) -> SchemaNode {
    SchemaNode::Switch { content: Box::new(content) }
}

fn vector(element: SchemaNode) -> SchemaNode {
    SchemaNode::Vector { default_element: Box::new(element) }
}

fn dictionary(value: SchemaNode) -> SchemaNode {
    SchemaNode::Dictionary { default_value: Box::new(value) }
}

#[test]
fn section_takes_known_names_and_drops_the_rest() {
    let schema = section(vec![
        ("kept", Some(SchemaNode::Boolean)),
        ("missing", Some(SchemaNode::Text)),
        ("hidden", None),
    ]);
    let cache = carried(
        r#"{"kept": false, "missing": "default", "hidden": 1}"#,
        r#"{"kept": true, "hidden": 2, "unknown": 3}"#,
        &schema,
    );
    assert_json(&cache, r#"{"kept": true, "missing": "default"}"#);
}

#[test]
fn section_without_old_value_is_null() {
    let schema = section(vec![("a", Some(SchemaNode::Boolean))]);
    assert_json(&carried("null", "null", &schema), r#"{"a": null}"#);
    assert_json(&carried("[1]", r#""text""#, &schema), r#"{"a": null}"#);
}

#[test]
fn later_entry_of_a_name_counts() {
    let schema = section(vec![
        ("a", Some(SchemaNode::Boolean)),
        ("a", Some(SchemaNode::Text)),
    ]);
    assert_json(&carried(r#"{"a": "old"}"#, r#"{"a": true}"#, &schema), r#"{"a": "old"}"#);
    assert_json(&carried(r#"{"a": false}"#, r#"{"a": "new"}"#, &schema), r#"{"a": "new"}"#);
}

#[test]
fn leaves_match_by_kind() {
    assert_json(&carried("false", "true", &SchemaNode::Boolean), "true");
    assert_json(&carried("false", "1", &SchemaNode::Boolean), "false");
    assert_json(&carried("1", "-2", &SchemaNode::Integer), "-2");
    assert_json(&carried("1", "9223372036854775807", &SchemaNode::Integer), "9223372036854775807");
    assert_json(&carried("1", "9223372036854775808", &SchemaNode::Integer), "1");
    assert_json(&carried("1", "2.0", &SchemaNode::Integer), "1");
    assert_json(&carried("0.5", "1.5", &SchemaNode::Float), "1.5");
    assert_json(&carried("0.5", "1", &SchemaNode::Float), "0.5");
    assert_json(&carried(r#""a""#, r#""b""#, &SchemaNode::Text), r#""b""#);
    assert_json(&carried(r#""a""#, "null", &SchemaNode::Text), r#""a""#);
}

#[test]
fn choice_takes_any_string_as_variant() {
    let schema = choice(vec![("off", None), ("on", Some(SchemaNode::Integer))]);
    let old = r#"{"variant": "off", "on": 1}"#;
    assert_json(
        &carried(old, r#"{"variant": "on", "on": 2}"#, &schema),
        r#"{"variant": "on", "on": 2}"#,
    );
    assert_json(
        &carried(old, r#"{"variant": "unheard of", "on": "x"}"#, &schema),
        r#"{"variant": "unheard of", "on": 1}"#,
    );
    assert_json(&carried(old, r#"{"variant": 3}"#, &schema), r#"{"variant": "off", "on": 1}"#);
    assert_json(&carried(old, "{}", &schema), r#"{"variant": "off", "on": 1}"#);
}

#[test]
fn optional_and_switch_keep_state_and_content() {
    assert_json(
        &carried(
            r#"{"set": false, "content": 1}"#,
            r#"{"set": true, "content": 2}"#,
            &optional(SchemaNode::Integer),
        ),
        r#"{"set": true, "content": 2}"#,
    );
    assert_json(
        &carried(
            r#"{"set": false, "content": 1}"#,
            r#"{"set": "yes"}"#,
            &optional(SchemaNode::Integer),
        ),
        r#"{"set": false, "content": 1}"#,
    );
    assert_json(
        &carried(
            r#"{"enabled": true, "content": 1}"#,
            r#"{"enabled": false, "content": "x"}"#,
            &switch(SchemaNode::Integer),
        ),
        r#"{"enabled": false, "content": 1}"#,
    );
    assert_json(
        &carried(
            r#"{"enabled": true, "content": 1}"#,
            r#"{"enabled": null}"#,
            &switch(SchemaNode::Integer),
        ),
        r#"{"enabled": true, "content": 1}"#,
    );
}

#[test]
fn array_has_the_length_of_the_schema() {
    let schema = SchemaNode::Array(vec![
        SchemaNode::Integer,
        SchemaNode::Integer,
        SchemaNode::Integer,
    ]);
    assert_json(&carried("[1, 2]", r#"["x"]"#, &schema), "[1, 2, null]");
    assert_json(&carried("[1]", "[5, 6, 7, 8]", &schema), "[5, 6, 7]");
    assert_json(&carried("[1, 2, 3]", "{}", &schema), "[1, 2, 3]");
}

#[test]
fn array_items_match_by_kind() {
    let flags = SchemaNode::Array(vec![SchemaNode::Boolean]);
    assert_json(&carried("[true]", "[5]", &flags), "[true]");
    assert_json(&carried("[true]", "[false]", &flags), "[false]");
    assert_json(&carried("null", "[5]", &flags), "[null]");
}

#[test]
fn array_items_are_carried_over_part_by_part() {
    let schema = SchemaNode::Array(vec![
        switch(SchemaNode::Integer),
        section(vec![("a", Some(SchemaNode::Text)), ("b", Some(SchemaNode::Integer))]),
    ]);
    assert_json(
        &carried(
            r#"[{"enabled": true, "content": 1}, {"a": "x", "b": 2}]"#,
            r#"[{"enabled": false, "content": "y"}, {"a": "z", "c": 3}]"#,
            &schema,
        ),
        r#"[{"enabled": false, "content": 1}, {"a": "z", "b": 2}]"#,
    );
}

#[test]
fn vector_and_dictionary() {
    assert_json(
        &carried(
            r#"{"element": 1, "default": [1]}"#,
            r#"{"element": 2, "default": [2, 3]}"#,
            &vector(SchemaNode::Integer),
        ),
        r#"{"element": 2, "default": [2, 3]}"#,
    );
    assert_json(
        &carried(r#"{"element": 1, "content": 7, "default": [1]}"#, "{}", &vector(SchemaNode::Integer)),
        r#"{"element": 7, "default": [1]}"#,
    );
    assert_json(
        &carried(r#"{"element": 1, "default": [1]}"#, "{}", &vector(SchemaNode::Integer)),
        r#"{"element": null, "default": [1]}"#,
    );
    assert_json(
        &carried(
            r#"{"key": "k", "value": 1, "default": []}"#,
            r#"{"key": "n", "value": "x"}"#,
            &dictionary(SchemaNode::Integer),
        ),
        r#"{"key": "n", "value": 1, "default": []}"#,
    );
    assert_json(
        &carried(
            r#"{"key": "k", "value": 1, "content": 9, "default": []}"#,
            r#"{"key": 4, "default": [["a", 1]]}"#,
            &dictionary(SchemaNode::Integer),
        ),
        r#"{"key": "k", "value": 9, "default": [["a", 1]]}"#,
    );
}

fn rich_schema() -> SchemaNode {
    section(vec![
        ("flag", Some(SchemaNode::Boolean)),
        ("codec", Some(choice(vec![("h264", None), ("hevc", None)]))),
        (
            "resolution",
            Some(choice(vec![
                ("scale", Some(SchemaNode::Float)),
                ("dimensions", Some(section(vec![("width", Some(SchemaNode::Integer))]))),
            ])),
        ),
        ("fov", Some(optional(SchemaNode::Array(vec![SchemaNode::Float, SchemaNode::Float])))),
        ("foveation", Some(switch(section(vec![("strength", Some(SchemaNode::Float))])))),
        ("name", Some(SchemaNode::Text)),
    ])
}

const RICH: &str = r#"{
    "flag": true,
    "codec": {"variant": "hevc"},
    "resolution": {"variant": "dimensions", "scale": 0.75, "dimensions": {"width": 1832}},
    "fov": {"set": true, "content": [1.5, 2.5]},
    "foveation": {"enabled": true, "content": {"strength": 2.5}},
    "name": "quest"
}"#;

const OTHER: &str = r#"{
    "flag": false,
    "codec": {"variant": "h264"},
    "resolution": {"variant": "scale", "scale": 1.0, "dimensions": {"width": 10}},
    "fov": {"set": false, "content": [0.5, 0.5]},
    "foveation": {"enabled": false, "content": {"strength": 0.5}},
    "name": "go"
}"#;

#[test]
fn conforming_cache_is_kept() {
    assert_json(&carried(OTHER, RICH, &rich_schema()), RICH);
    assert_json(&carried("null", RICH, &rich_schema()), RICH);
}

#[test]
fn old_cache_stays_without_a_new_one() {
    assert_json(&carried(OTHER, "null", &rich_schema()), OTHER);
}

#[test]
fn extrapolating_twice_is_extrapolating_once() {
    let new = r#"{"flag": 1, "resolution": {"dimensions": {"width": 7}}, "fov": {"set": true}}"#;
    let schema = rich_schema();
    let old = json(OTHER);
    let once = extrapolate_settings_cache(&old, &json(new), &schema);
    let twice = extrapolate_settings_cache(&old, &once, &schema);
    assert_eq!(plain(&once), plain(&twice));
    assert_json(
        &once,
        r#"{
            "flag": false,
            "codec": {"variant": "h264"},
            "resolution": {"variant": "scale", "scale": 1.0, "dimensions": {"width": 7}},
            "fov": {"set": true, "content": [0.5, 0.5]},
            "foveation": {"enabled": false, "content": {"strength": 0.5}},
            "name": "go"
        }"#,
    );
}

#[test]
fn settings_of_a_rich_cache() {
    assert_json(
        &settings(RICH, &rich_schema()),
        r#"{
            "flag": true,
            "codec": "hevc",
            "resolution": {"type": "dimensions", "content": {"width": 1832}},
            "fov": [1.5, 2.5],
            "foveation": {"type": "enabled", "content": {"strength": 2.5}},
            "name": "quest"
        }"#,
    );
    assert_json(
        &settings(OTHER, &rich_schema()),
        r#"{
            "flag": false,
            "codec": "h264",
            "resolution": {"type": "scale", "content": 1.0},
            "fov": null,
            "foveation": {"type": "disabled", "content": null},
            "name": "go"
        }"#,
    );
}

#[test]
fn unselected_parts_have_no_say() {
    let schema = section(vec![
        ("mode", Some(choice(vec![("a", Some(SchemaNode::Integer)), ("b", None)]))),
        ("limit", Some(optional(SchemaNode::Integer))),
        ("filter", Some(switch(SchemaNode::Integer))),
        ("list", Some(vector(SchemaNode::Integer))),
    ]);
    let expected = r#"{"mode": {"type": "b", "content": null}, "limit": null, "filter": {"type": "disabled", "content": null}, "list": [1]}"#;
    for cache in [
        r#"{"mode": {"variant": "b", "a": 1}, "limit": {"set": false, "content": 2}, "filter": {"enabled": false, "content": 3}, "list": {"element": 4, "default": [1]}}"#,
        r#"{"mode": {"variant": "b"}, "limit": {"set": false, "content": "x"}, "filter": {"enabled": false}, "list": {"default": [1]}, "more": 5}"#,
    ] {
        assert_json(&settings(cache, &schema), expected);
    }
}

#[test]
fn settings_of_a_variant_without_data() {
    let schema = choice(vec![("off", None), ("on", Some(SchemaNode::Integer))]);
    assert_json(
        &settings(r#"{"variant": "off", "on": 1}"#, &schema),
        r#"{"type": "off", "content": null}"#,
    );
}

#[test]
fn settings_of_the_first_variant_of_a_name() {
    let schema = choice(vec![
        ("a", Some(switch(SchemaNode::Integer))),
        ("a", Some(SchemaNode::Integer)),
    ]);
    assert_json(
        &settings(r#"{"variant": "a", "a": {"enabled": false}}"#, &schema),
        r#"{"type": "a", "content": {"type": "disabled", "content": null}}"#,
    );
}

#[test]
fn settings_of_lists_are_their_default() {
    assert_json(
        &settings(r#"{"element": 1, "default": [1, 2]}"#, &vector(SchemaNode::Integer)),
        "[1, 2]",
    );
    assert_json(
        &settings(r#"{"key": "k", "value": 1}"#, &dictionary(SchemaNode::Integer)),
        "null",
    );
}

#[test]
fn caches_that_cannot_be_read() {
    let tagged = choice(vec![("off", None), ("on", Some(switch(SchemaNode::Integer)))]);
    assert!(!is_readable(&json(r#"{"variant": "unknown"}"#), &tagged));
    assert!(!is_readable(&json(r#"{"variant": 1}"#), &tagged));
    assert!(!is_readable(&json("null"), &tagged));
    assert!(!is_readable(&json(r#"{"variant": "on"}"#), &tagged));
    assert!(is_readable(&json(r#"{"variant": "off"}"#), &tagged));
    assert!(is_readable(&json("null"), &choice(vec![("a", None)])));
    assert!(!is_readable(&json("{}"), &optional(SchemaNode::Boolean)));
    assert!(is_readable(&json(r#"{"set": false}"#), &optional(switch(SchemaNode::Boolean))));
    assert!(!is_readable(&json(r#"{"set": true}"#), &optional(switch(SchemaNode::Boolean))));
    assert!(!is_readable(&json(r#"{"enabled": 1}"#), &switch(SchemaNode::Boolean)));
    assert!(!is_readable(&json("[]"), &SchemaNode::Array(vec![switch(SchemaNode::Boolean)])));
    assert!(is_readable(&json("[]"), &SchemaNode::Array(vec![SchemaNode::Boolean])));
    assert!(!is_readable(
        &json("{}"),
        &section(vec![("a", Some(switch(SchemaNode::Boolean)))])
    ));
}
