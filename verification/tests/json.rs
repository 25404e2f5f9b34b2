use token_board::json::{field, integer, items, number, set_field, text, Json};
use token_board::serde_value::{json_bytes, json_line, parse_json, parse_json_text};

fn parsed(source: &str) -> Json {
    parse_json(source.as_bytes()).unwrap()
}

#[test]
fn a_document_is_read_from_bytes() {
    let json = parsed("{\"a\": [null, true, -3, \"x\"], \"b\": {\"c\": 1.5}}");
    let list = items(field(Some(&json), "a")).unwrap();
    assert_eq!(list[0], Json::Null);
    assert_eq!(list[1], Json::Bool(true));
    assert_eq!(list[2], Json::Integer(-3));
    assert_eq!(text(Some(&list[3])), Some("x"));
    let inner = field(field(Some(&json), "b"), "c");
    assert!(matches!(inner, Some(Json::Number(_))));
    assert_eq!(number(inner), None);
}

#[test]
fn what_is_not_json_is_not_read() {
    assert!(parse_json(b"").is_none());
    assert!(parse_json(b"{\"a\":}").is_none());
    assert!(parse_json(b"1 2").is_none());
    assert!(parse_json(&[0xff]).is_none());
    assert!(parse_json_text("codex ready").is_none());
    assert_eq!(parse_json_text(" [] "), Some(Json::List(vec![])));
}

#[test]
fn the_later_of_two_fields_counts() {
    let json = parsed("{\"a\": 1, \"a\": 2}");
    assert_eq!(integer(field(Some(&json), "a")), Some(2));
    let twice = Json::Record(vec![
        ("a".to_string(), Json::Integer(1)),
        ("b".to_string(), Json::Null),
        ("a".to_string(), Json::Integer(2)),
    ]);
    assert_eq!(integer(field(Some(&twice), "a")), Some(2));
    assert_eq!(json_line(&twice), "{\"a\":2,\"b\":null}");
}

#[test]
fn a_missing_part_has_no_parts() {
    assert_eq!(field(None, "a"), None);
    assert_eq!(field(Some(&Json::Bool(true)), "a"), None);
    assert_eq!(text(Some(&Json::Integer(1))), None);
    assert_eq!(items(Some(&Json::Null)), None);
    assert_eq!(integer(Some(&Json::Text("1".to_string()))), None);
}

#[test]
fn a_number_is_read_from_a_number_or_a_text() {
    assert_eq!(number(Some(&Json::Integer(42))), Some(42));
    assert_eq!(number(Some(&Json::Text("42".to_string()))), Some(42));
    assert_eq!(number(Some(&Json::Text("42%".to_string()))), None);
    assert_eq!(number(Some(&Json::Null)), None);
    assert_eq!(number(None), None);
    assert_eq!(number(Some(&parsed("9223372036854775807"))), Some(i64::MAX));
    assert_eq!(number(Some(&parsed("9223372036854775808"))), None);
    assert_eq!(number(Some(&parsed("1.0"))), None);
    let number_of_serde = Json::Number(serde_json::Number::from(7));
    assert_eq!(number(Some(&number_of_serde)), Some(7));
}

#[test]
fn setting_a_field_replaces_or_adds_it() {
    let mut fields: Vec<(String, Json)> = Vec::new();
    set_field(&mut fields, "a", Json::Integer(1));
    set_field(&mut fields, "b", Json::Integer(2));
    set_field(&mut fields, "a", Json::Integer(3));
    assert_eq!(
        fields,
        vec![("a".to_string(), Json::Integer(3)), ("b".to_string(), Json::Integer(2))]
    );
}

#[test]
fn a_plain_document_reads_back() {
    let json = Json::Record(vec![
        ("list".to_string(), Json::List(vec![Json::Null, Json::Bool(false), Json::Integer(-1)])),
        ("text".to_string(), Json::Text("行\n\"x\"\u{1}".to_string())),
    ]);
    let bytes = json_bytes(&json).unwrap();
    assert_eq!(parse_json(&bytes), Some(json));
}

#[test]
fn greater_integers_read_back() {
    let json = Json::List(vec![Json::Unsigned(u64::MAX), Json::Unsigned(1 << 63)]);
    assert_eq!(json_line(&json), "[18446744073709551615,9223372036854775808]");
    assert_eq!(parse_json(&json_bytes(&json).unwrap()), Some(json));
    assert_eq!(number(Some(&Json::Unsigned(u64::MAX))), None);
    assert_eq!(number(Some(&Json::Unsigned(5))), Some(5));
    let small = json_bytes(&Json::Unsigned(5)).unwrap();
    assert_eq!(parse_json(&small), Some(Json::Integer(5)));
}

#[test]
fn a_document_is_one_line() {
    let json = Json::Record(vec![
        ("b".to_string(), Json::Text("two\nlines".to_string())),
        ("a".to_string(), Json::List(vec![Json::Integer(1), Json::Integer(2)])),
    ]);
    let line = json_line(&json);
    assert_eq!(line, "{\"a\":[1,2],\"b\":\"two\\nlines\"}");
    assert!(!line.contains('\n'));
    assert_eq!(text(field(parse_json_text(&line).as_ref(), "b")), Some("two\nlines"));
}

#[test]
fn nesting_is_read_back_up_to_its_limit() {
    let mut json = Json::List(vec![]);
    for _ in 0..126 {
        json = Json::List(vec![json]);
    }
    let bytes = json_bytes(&json).unwrap();
    assert_eq!(parse_json(&bytes).as_ref(), Some(&json));
    let deeper = Json::List(vec![json]);
    assert!(parse_json(&json_bytes(&deeper).unwrap()).is_none());
}

#[test]
fn other_numbers_are_carried_along() {
    let json = parsed("{\"expires_at\":1731739000.25,\"big\":18446744073709551615}");
    assert_eq!(
        json_bytes(&json).unwrap(),
        b"{\"big\":18446744073709551615,\"expires_at\":1731739000.25}".to_vec()
    );
    assert_eq!(parse_json(&json_bytes(&json).unwrap()), Some(json));
}

#[test]
fn a_number_is_read_in_a_document_as_it_is_alone() {
    for number in [0.1, 100.5, -0.0, 1731739000.123456, 1e300, f64::MIN_POSITIVE, f64::MAX] {
        let json = || Json::Number(serde_json::Number::from_f64(number).unwrap());
        let alone = parse_json(&json_bytes(&json()).unwrap());
        let list = Json::List(vec![json(), Json::Null]);
        let read = parse_json(&json_bytes(&list).unwrap());
        assert_eq!(read, alone.map(|json| Json::List(vec![json, Json::Null])));
    }
}
