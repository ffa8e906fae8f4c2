use junco_launcher_utils::options_parser::OptionsDataType;
use junco_launcher_utils::options_parser::parse_line;
use junco_launcher_utils::options_parser::parse_options_string;

#[test]
fn parses_integer_value() {
    let parsed = parse_line("count: 42").unwrap();
    assert_eq!(parsed.key, "count");
    match parsed.value {
        OptionsDataType::Integer(v) => assert_eq!(v, 42),
        _ => panic!("expected integer"),
    }
}

#[test]
fn parses_float_value() {
    let parsed = parse_line("ratio: 3.14").unwrap();
    assert_eq!(parsed.key, "ratio");
    match parsed.value {
        OptionsDataType::Float(v) => assert_eq!(v.parse::<f64>().unwrap(), 3.14),
        _ => panic!("expected float"),
    }
}

#[test]
fn parses_boolean_true_value() {
    let parsed = parse_line("enabled: true").unwrap();
    assert_eq!(parsed.key, "enabled");
    match parsed.value {
        OptionsDataType::Boolean(v) => assert!(v),
        _ => panic!("expected boolean true"),
    }
}

#[test]
fn parses_boolean_false_value_with_quotes() {
    let parsed = parse_line("active:\"false\"").unwrap();
    assert_eq!(parsed.key, "active");
    match parsed.value {
        OptionsDataType::Boolean(v) => assert!(!v),
        _ => panic!("expected boolean false"),
    }
}

#[test]
fn parses_string_list_value() {
    let parsed = parse_line("items: [apple, banana, cherry]").unwrap();
    assert_eq!(parsed.key, "items");
    match parsed.value {
        OptionsDataType::StringList(v) => assert_eq!(v, vec!["apple", "banana", "cherry"]),
        _ => panic!("expected string list"),
    }
}

#[test]
fn parses_string_value_when_no_other_type_matches() {
    let parsed = parse_line("name: John Doe").unwrap();
    assert_eq!(parsed.key, "name");
    match parsed.value {
        OptionsDataType::String(v) => assert_eq!(v, "John Doe"),
        _ => panic!("expected string"),
    }
}

#[test]
fn parses_empty_value_as_string() {
    let parsed = parse_line("empty:").unwrap();
    assert_eq!(parsed.key, "empty");
    match parsed.value {
        OptionsDataType::String(v) => assert_eq!(v, ""),
        _ => panic!("expected string"),
    }
}

#[test]
fn trims_whitespace_around_key_and_value() {
    let parsed = parse_line("  key  :   value  ").unwrap();
    assert_eq!(parsed.key, "key");
    match parsed.value {
        OptionsDataType::String(v) => assert_eq!(v, "value"),
        _ => panic!("expected string"),
    }
}

#[test]
fn parses_list_with_extra_spaces_and_empty_items() {
    let parsed = parse_line("list: [ a,  , b ,c ]").unwrap();
    assert_eq!(parsed.key, "list");
    match parsed.value {
        OptionsDataType::StringList(v) => assert_eq!(v, vec!["a", "", "b", "c"]),
        _ => panic!("expected string list"),
    }
}

#[test]
fn parses_options_string_ignores_empty_and_comment_lines() {
    let content = r#"
        # This is a comment
        key1: 123

        key2: true
        # Another comment
        key3: [a, b, c]
    "#;
    let parsed = parse_options_string(content);
    assert_eq!(parsed.len(), 3);
    assert_eq!(parsed[0].key, "key1");
    assert_eq!(parsed[1].key, "key2");
    assert_eq!(parsed[2].key, "key3");
}

#[test]
fn parses_options_string_handles_only_comments_and_empty_lines() {
    let content = r#"
        # comment
        # another comment

    "#;
    let parsed = parse_options_string(content);
    assert!(parsed.is_empty());
}

#[test]
fn parses_options_string_handles_mixed_types() {
    let content = r#"
            int: 1
            float: 2.5
            bool: false
            str: hello
            list: [x, y, z]
        "#;
    let parsed = parse_options_string(content);
    assert_eq!(parsed.len(), 5);
    matches!(parsed[0].value, OptionsDataType::Integer(1));
    matches!(parsed[1].value, OptionsDataType::Float(_));
    matches!(parsed[2].value, OptionsDataType::Boolean(false));
    matches!(parsed[3].value, OptionsDataType::String(ref s) if s == "hello");
    matches!(parsed[4].value, OptionsDataType::StringList(ref v) if v == &["x", "y", "z"]);
}

#[test]
fn returns_error_for_missing_key() {
    let line = ": value";
    let result = parse_line(line);
    assert!(result.is_err());
    if let Err(e) = result {
        assert_eq!(e.message, "Key is missing or empty");
    }
}

#[test]
fn parses_key_with_special_characters() {
    let parsed = parse_line("key-with-dash: value").unwrap();
    assert_eq!(parsed.key, "key-with-dash");
    match parsed.value {
        OptionsDataType::String(v) => assert_eq!(v, "value"),
        _ => panic!("expected string"),
    }
}

#[test]
fn parses_value_with_colon() {
    let parsed = parse_line("key: value:with:colons").unwrap();
    assert_eq!(parsed.key, "key");
    match parsed.value {
        OptionsDataType::String(v) => assert_eq!(v, "value:with:colons"),
        _ => panic!("expected string"),
    }
}

#[test]
fn parses_empty_key_with_non_empty_value() {
    let parsed = parse_line(": value").unwrap_err();
    assert_eq!(parsed.message, "Key is missing or empty");
}

#[test]
fn parses_value_with_quotes() {
    let parsed = parse_line("key: \"quoted value\"").unwrap();
    assert_eq!(parsed.key, "key");
    match parsed.value {
        OptionsDataType::String(v) => assert_eq!(v, "\"quoted value\""),
        _ => panic!("expected string"),
    }
}

#[test]
fn parses_list_with_nested_brackets() {
    let parsed = parse_line("key: [a, [b, c], d]").unwrap();
    assert_eq!(parsed.key, "key");
    match parsed.value {
        OptionsDataType::StringList(v) => assert_eq!(v, vec!["a", "[b", "c]", "d"]),
        _ => panic!("expected string list"),
    }
}

#[test]
fn parses_key_with_leading_and_trailing_whitespace() {
    let parsed = parse_line("  key  : value").unwrap();
    assert_eq!(parsed.key, "key");
    match parsed.value {
        OptionsDataType::String(v) => assert_eq!(v, "value"),
        _ => panic!("expected string"),
    }
}

#[test]
fn parses_value_with_leading_and_trailing_whitespace() {
    let parsed = parse_line("key:   value   ").unwrap();
    assert_eq!(parsed.key, "key");
    match parsed.value {
        OptionsDataType::String(v) => assert_eq!(v, "value"),
        _ => panic!("expected string"),
    }
}

#[test]
fn parses_key_and_value_with_unicode_characters() {
    let parsed = parse_line("ключ: значение").unwrap();
    assert_eq!(parsed.key, "ключ");
    match parsed.value {
        OptionsDataType::String(v) => assert_eq!(v, "значение"),
        _ => panic!("expected string"),
    }
}

#[test]
fn parses_value_with_escaped_characters() {
    let parsed = parse_line("key: value\\nwith\\tescapes").unwrap();
    assert_eq!(parsed.key, "key");
    match parsed.value {
        OptionsDataType::String(v) => assert_eq!(v, "value\\nwith\\tescapes"),
        _ => panic!("expected string"),
    }
}

#[test]
fn parses_key_with_numbers() {
    let parsed = parse_line("key123: value").unwrap();
    assert_eq!(parsed.key, "key123");
    match parsed.value {
        OptionsDataType::String(v) => assert_eq!(v, "value"),
        _ => panic!("expected string"),
    }
}

#[test]
fn parses_integer_too_large_for_i64_as_float() {
    let parsed = parse_line("big: 9223372036854775808").unwrap();
    assert_eq!(parsed.key, "big");
    match parsed.value {
        OptionsDataType::Float(v) => assert_eq!(v, "9223372036854775808"),
        _ => panic!("expected float"),
    }
}

#[test]
fn parses_negative_integer_at_i64_minimum() {
    let parsed = parse_line("min: -9223372036854775808").unwrap();
    match parsed.value {
        OptionsDataType::Integer(v) => assert_eq!(v, i64::MIN),
        _ => panic!("expected integer"),
    }
}

#[test]
fn parses_exponent_float_value() {
    let parsed = parse_line("exp: 2E-3").unwrap();
    match parsed.value {
        OptionsDataType::Float(v) => assert_eq!(v, "2E-3"),
        _ => panic!("expected float"),
    }
}

#[test]
fn parses_infinity_word_as_float() {
    let parsed = parse_line("much: -Infinity").unwrap();
    match parsed.value {
        OptionsDataType::Float(v) => assert_eq!(v, "-Infinity"),
        _ => panic!("expected float"),
    }
}

#[test]
fn double_dot_is_a_plain_string() {
    let parsed = parse_line("v: 1..2").unwrap();
    match parsed.value {
        OptionsDataType::String(v) => assert_eq!(v, "1..2"),
        _ => panic!("expected string"),
    }
}

#[test]
fn crlf_line_endings_are_handled() {
    let parsed = parse_options_string("a: 1\r\nb: 2\r\n");
    assert_eq!(parsed.len(), 2);
    assert_eq!(parsed[0].key, "a");
    assert_eq!(parsed[1].key, "b");
}

#[test]
fn parses_plus_signed_integer() {
    let parsed = parse_line("n: +7").unwrap();
    match parsed.value {
        OptionsDataType::Integer(v) => assert_eq!(v, 7),
        _ => panic!("expected integer"),
    }
}

#[test]
fn double_signed_number_is_a_plain_string() {
    let parsed = parse_line("n: --5").unwrap();
    match parsed.value {
        OptionsDataType::String(v) => assert_eq!(v, "--5"),
        _ => panic!("expected string"),
    }
}

#[test]
fn empty_bracket_list_holds_one_empty_item() {
    let parsed = parse_line("l: []").unwrap();
    match parsed.value {
        OptionsDataType::StringList(v) => assert_eq!(v, vec![""]),
        _ => panic!("expected string list"),
    }
}

#[test]
fn parse_error_describes_itself() {
    let err = parse_line(": value").unwrap_err();
    assert_eq!(err.describe(), "ParseError: Key is missing or empty");
}
