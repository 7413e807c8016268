use gws::json::{field, Json};

#[test]
fn text_is_read_and_written() {
    let cases = [
        ("null", "null"),
        (" true ", "true"),
        ("\"a\\u0062\\n\"", "\"ab\\n\""),
        ("[1, -2, 2.50, 1e3]", "[1,-2,2.5,1000.0]"),
        ("{\"b\": {}, \"a\": [[]]}", "{\"a\":[[]],\"b\":{}}"),
        ("18446744073709551615", "18446744073709551615"),
        ("{\"k\":1,\"k\":2}", "{\"k\":2}"),
        ("0.1", "0.1"),
    ];
    for (text, written) in cases {
        let value = Json::parse(text).unwrap();
        assert_eq!(value.to_text(), written);
        assert_eq!(value.copy().to_text(), written);
    }
}

#[test]
fn text_that_is_not_json_is_refused() {
    for text in ["", "{", "nul", "{\"a\":1,}", "1 2", "'a'"] {
        assert!(Json::parse(text).is_none(), "{text}");
    }
}

#[test]
fn indented_text() {
    let value = Json::parse("{\"a\":[1],\"b\":{}}").unwrap();
    assert_eq!(value.to_pretty_text(), "{\n  \"a\": [\n    1\n  ],\n  \"b\": {}\n}");
}

#[test]
fn fields_are_found_only_in_objects() {
    let value = Json::parse("{\"s\":\"x\",\"b\":true,\"n\":null}").unwrap();
    assert_eq!(value.get("s").unwrap().as_str(), Some("x"));
    assert_eq!(value.get("s").unwrap().as_bool(), None);
    assert_eq!(value.get("b").unwrap().as_bool(), Some(true));
    assert!(value.get("b").unwrap().as_str().is_none());
    assert!(value.get("n").is_some());
    assert!(value.get("x").is_none());
    assert_eq!(value.into_field("s").unwrap().as_str(), Some("x"));
    for text in ["[\"s\"]", "\"s\"", "3"] {
        let value = Json::parse(text).unwrap();
        assert!(value.get("s").is_none());
        assert!(value.into_field("s").is_none());
    }
}

#[test]
fn of_two_fields_with_one_key_the_later_counts() {
    let fields = field(Vec::new(), "k", Json::whole_number(1));
    let fields = field(fields, "j", Json::Bool(false));
    let value = Json::Object(field(fields, "k", Json::whole_number(-32603)));
    assert_eq!(value.get("k").unwrap().to_text(), "-32603");
    assert_eq!(value.to_text(), "{\"j\":false,\"k\":-32603}");
    assert_eq!(value.copy().into_field("k").unwrap().to_text(), "-32603");
}

#[test]
fn outside_values_convert_both_ways() {
    let text = "{\"a\":[null,{\"b\":\"c\"}],\"n\":-7}";
    let outside: serde_json::Value = serde_json::from_str(text).unwrap();
    let value = Json::from_value(outside.clone());
    assert_eq!(value.to_value(), outside);
    assert_eq!(value.to_text(), text);
}
