use agentloom_db::json::{get, get_text, has_text, integer, parse_json, print_json, Json};

fn text(s: &str) -> Json {
    Json::Text(s.into())
}

#[test]
fn a_text_is_read_as_the_value_it_writes() {
    assert_eq!(parse_json(" null "), Ok(Json::Null));
    assert_eq!(parse_json("true"), Ok(Json::Bool(true)));
    assert_eq!(parse_json("-3"), Ok(integer(-3)));
    assert_eq!(
        parse_json("18446744073709551615"),
        Ok(Json::Number(u64::MAX.into()))
    );
    assert_eq!(
        parse_json("0.5"),
        Ok(Json::Number(serde_json::Number::from_f64(0.5).unwrap()))
    );
    assert_eq!(
        parse_json(r#"[{"b":"x","a":[]}]"#),
        Ok(Json::Array(vec![Json::Object(vec![
            ("a".into(), Json::Array(vec![])),
            ("b".into(), text("x")),
        ])]))
    );
}

#[test]
fn a_text_that_writes_no_value_has_a_reason() {
    assert_eq!(
        parse_json("nope"),
        Err("expected ident at line 1 column 2".to_string())
    );
    assert!(parse_json("").unwrap_err().starts_with("EOF while parsing a value"));
}

#[test]
fn a_value_is_written_compactly_with_its_names_in_order() {
    let value = Json::Object(vec![
        ("b".into(), Json::Array(vec![integer(1), Json::Null])),
        ("a".into(), text("\"你\"\n")),
    ]);
    assert_eq!(print_json(&value), r#"{"a":"\"你\"\n","b":[1,null]}"#);
}

#[test]
fn a_list_of_records_is_read_back() {
    let table = Json::Array(vec![
        Json::Object(vec![("kind".into(), text("message")), ("ref".into(), integer(i64::MIN))]),
        Json::Object(vec![]),
    ]);
    assert_eq!(parse_json(&print_json(&table)), Ok(table));
}

#[test]
fn members_are_found_by_name() {
    let value = Json::Object(vec![("a".into(), text("x")), ("b".into(), Json::Null)]);
    assert_eq!(get(&value, "b"), Some(&Json::Null));
    assert_eq!(get(&value, "c"), None);
    assert_eq!(get(&Json::Null, "a"), None);
    assert_eq!(get_text(&value, "a").map(|s| s.as_str()), Some("x"));
    assert_eq!(get_text(&value, "b"), None);
    assert!(has_text(&value, "a", "x"));
    assert!(!has_text(&value, "a", "y"));
}

#[test]
fn a_value_is_read_back_as_deep_as_values_are_read() {
    let deep = |n: usize| (1..n).fold(Json::Array(vec![]), |inner, _| Json::Array(vec![inner]));
    let most = deep(127);
    assert_eq!(parse_json(&print_json(&most)), Ok(most));
    assert!(parse_json(&print_json(&deep(128))).is_err());
}

#[test]
fn an_integer_is_written_in_decimal() {
    assert_eq!(print_json(&integer(i64::MIN)), "-9223372036854775808");
    assert_eq!(print_json(&integer(0)), "0");
}
