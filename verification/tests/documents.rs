use pokedex::json::{json_quote, obj_get, parse_json, JsonValue};

fn text(s: &str) -> JsonValue {
    JsonValue::Str(s.to_string())
}

#[test]
fn parses_scalars() {
    assert_eq!(parse_json("null"), Some(JsonValue::Null));
    assert_eq!(parse_json(" true "), Some(JsonValue::Bool(true)));
    assert_eq!(parse_json("false"), Some(JsonValue::Bool(false)));
    assert_eq!(parse_json("0"), Some(JsonValue::Num("0".to_string())));
    assert_eq!(parse_json("-12.50e3"), Some(JsonValue::Num("-12.50e3".to_string())));
    assert_eq!(parse_json("\"hi\""), Some(text("hi")));
}

#[test]
fn parses_string_escapes() {
    assert_eq!(
        parse_json(r#""a\"b\\c\/d\n\t\r\b\f""#),
        Some(text("a\"b\\c/d\n\t\r\u{8}\u{c}"))
    );
    assert_eq!(parse_json(r#""\u0041\u00e9""#), Some(text("Aé")));
    assert_eq!(parse_json(r#""\uD83D\uDE00""#), Some(text("😀")));
    assert_eq!(parse_json("\"pokémon\""), Some(text("pokémon")));
}

#[test]
fn parses_nested_documents() {
    let parsed = parse_json(r#" { "a" : [ 1 , { "b" : null } ] , "c" : "d" } "#)
        .expect("should parse");

    let expected = JsonValue::Obj(vec![
        (
            "a".to_string(),
            JsonValue::Arr(vec![
                JsonValue::Num("1".to_string()),
                JsonValue::Obj(vec![("b".to_string(), JsonValue::Null)]),
            ]),
        ),
        ("c".to_string(), text("d")),
    ]);

    assert_eq!(parsed, expected);
}

#[test]
fn parses_empty_containers() {
    assert_eq!(parse_json("[]"), Some(JsonValue::Arr(vec![])));
    assert_eq!(parse_json("{ }"), Some(JsonValue::Obj(vec![])));
}

#[test]
fn rejects_malformed_documents() {
    assert_eq!(parse_json(""), None);
    assert_eq!(parse_json("{"), None);
    assert_eq!(parse_json("{} trailing"), None);
    assert_eq!(parse_json("[1,]"), None);
    assert_eq!(parse_json("{\"a\" 1}"), None);
    assert_eq!(parse_json("01"), None);
    assert_eq!(parse_json("+1"), None);
    assert_eq!(parse_json("1."), None);
    assert_eq!(parse_json("\"unterminated"), None);
    assert_eq!(parse_json("\"raw\nnewline\""), None);
    assert_eq!(parse_json(r#""\uDE00""#), None);
    assert_eq!(parse_json("{not_even_json}"), None);
}

#[test]
fn the_first_of_two_equal_keys_wins() {
    let parsed = parse_json(r#"{"a": 1, "a": 2}"#).expect("should parse");
    match parsed {
        JsonValue::Obj(fields) => {
            assert_eq!(obj_get(&fields, "a"), Some(&JsonValue::Num("1".to_string())));
            assert_eq!(obj_get(&fields, "b"), None);
        },
        other => panic!("expected an object, got {:?}", other),
    }
}

#[test]
fn quoting_escapes_what_json_requires() {
    assert_eq!(json_quote("plain"), "\"plain\"".to_string());
    assert_eq!(json_quote("a\"b\\c\nd"), "\"a\\\"b\\\\c\\nd\"".to_string());
    assert_eq!(json_quote("\u{8}\u{c}\r\t"), "\"\\b\\f\\r\\t\"".to_string());
    assert_eq!(json_quote("\u{1}"), "\"\\u0001\"".to_string());
    assert_eq!(json_quote("pokémon"), "\"pokémon\"".to_string());
}

#[test]
fn quoted_text_parses_back_to_the_same_text() {
    let cases = ["", "plain", "a\"b\\c\nd", "pokémon 😀", "\u{1}\u{1f}"];
    for case in cases {
        assert_eq!(parse_json(&json_quote(case)), Some(text(case)));
    }
}
