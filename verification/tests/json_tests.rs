use localcoder::json::{put, Json};

fn object(pairs: Vec<(&str, Json)>) -> Json {
    let mut entries = Vec::new();
    for (key, value) in pairs {
        put(&mut entries, key, value);
    }
    Json::Object(entries)
}

#[test]
fn last_entry_of_a_key_counts() {
    let value = object(vec![("a", Json::text("x")), ("a", Json::text("y"))]);
    assert_eq!(value.str_at("a"), Some("y"));
    assert_eq!(value.to_compact().unwrap(), "{\"a\":\"y\"}");
}

#[test]
fn missing_fields_read_as_nothing() {
    let value = object(vec![("a", Json::Bool(true))]);
    assert_eq!(value.str_at("a"), None);
    assert_eq!(value.str_or_empty("b"), "");
    assert!(value.get("b").is_none());
    assert!(Json::Null.get("a").is_none());
    assert_eq!(value.copy_at("b"), Json::Null);
}

#[test]
fn compact_text_has_sorted_keys_and_no_spaces() {
    let value = object(vec![
        ("b", Json::Array(vec![Json::Null, Json::Bool(false)])),
        ("a", Json::number(7)),
    ]);
    assert_eq!(value.to_compact().unwrap(), "{\"a\":7,\"b\":[null,false]}");
}

#[test]
fn pretty_text_is_indented() {
    let value = object(vec![("a", Json::text("é"))]);
    assert_eq!(value.to_pretty().unwrap(), "{\n  \"a\": \"é\"\n}");
}

#[test]
fn what_is_written_is_read_back() {
    let value = object(vec![
        ("list", Json::Array(vec![Json::text("x\ty"), object(vec![])])),
        ("none", Json::Null),
    ]);
    assert_eq!(Json::parse(&value.to_compact().unwrap()), Some(value.clone()));
    assert_eq!(Json::parse(&value.to_pretty().unwrap()), Some(value));
}

#[test]
fn text_that_is_no_json_is_not_read() {
    assert_eq!(Json::parse("{"), None);
    assert_eq!(Json::parse(""), None);
}

#[test]
fn later_entries_take_the_place_of_earlier_ones() {
    let value = Json::Object(vec![
        ("a".to_string(), Json::text("first")),
        ("b".to_string(), Json::Null),
        ("a".to_string(), Json::text("last")),
    ]);
    assert_eq!(value.to_compact().unwrap(), "{\"a\":\"last\",\"b\":null}");
    assert_eq!(value.str_at("a"), Some("last"));
}

#[test]
fn key_of_raw_values_is_not_read_back() {
    let value = Json::Object(vec![(
        "$serde_json::private::RawValue".to_string(),
        Json::text("null"),
    )]);
    assert_eq!(Json::parse(&value.to_compact().unwrap()), Some(Json::Null));
}
