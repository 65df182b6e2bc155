use yzz_llm_proxy::http::is_header_text;
use yzz_llm_proxy::ids::{new_completion_id, new_machine_id};
use yzz_llm_proxy::json::bridge::parse_or_empty;
use yzz_llm_proxy::json::{Json, JsonObject};
use yzz_llm_proxy::provider::kiro::client_helper::get_kiro_headers;
use yzz_llm_proxy::provider::kiro::framing::find_matching_brace;
use yzz_llm_proxy::text::{
    join2, join3, split_once, starts_with, text_eq, to_chars, trim_end_matches, trim_start_matches,
};

fn value(text: &str) -> serde_json::Value {
    serde_json::from_str(text).unwrap()
}

#[test]
fn texts_are_compared() {
    assert!(text_eq("", ""));
    assert!(text_eq("äb", "äb"));
    assert!(!text_eq("a", "ab"));
    assert!(!text_eq("ab", "aB"));
}

#[test]
fn texts_are_joined_and_taken_apart() {
    assert_eq!(join2("a", "ü"), "aü");
    assert_eq!(join3("a", "", "c"), "ac");
    assert_eq!(to_chars("aü"), vec!['a', 'ü']);
}

#[test]
fn texts_are_split_at_the_first_character() {
    for text in ["kiro/glm-5", "a/b/c", "/", "x/", "/x", "none", ""] {
        let expected = text.split_once('/').map(|(a, b)| (a.to_string(), b.to_string()));
        assert_eq!(split_once(text, '/'), expected);
    }
}

#[test]
fn texts_begin_with_a_prefix() {
    for (text, prefix) in [("data:x", "data:"), ("dat", "data:"), ("", ""), ("é", "e"), ("ab", "b")] {
        assert_eq!(starts_with(text, prefix), text.starts_with(prefix));
    }
}

#[test]
fn texts_are_trimmed() {
    for (text, pattern) in [("data:data:x", "data:"), ("x", "data:"), ("aaa", "a"), ("aaa", "aa"), ("", "a")] {
        assert_eq!(trim_start_matches(text, pattern), text.trim_start_matches(pattern));
        assert_eq!(trim_end_matches(text, pattern), text.trim_end_matches(pattern));
    }
    assert_eq!(trim_end_matches("image/png;base64", ";base64"), "image/png");
    assert_eq!(trim_end_matches("https://d//", "/"), "https://d");
}

#[test]
fn json_is_read_and_written() {
    let text = r#"{"b": [1, -2, 2.5, true, false, null, "x\"y"], "a": {}}"#;
    let parsed = Json::parse(text).unwrap();
    assert_eq!(parsed.to_value(), value(text));
    assert_eq!(parsed.compact(), r#"{"a":{},"b":[1,-2,2.5,true,false,null,"x\"y"]}"#);
    assert_eq!(parsed.display(), r#"{"a":{},"b":[1,-2,2.5,true,false,null,"x\"y"]}"#);
    assert!(Json::parse("{").is_none());
    assert!(Json::parse("").is_none());
    assert_eq!(Json::from_value(value(text)).to_value(), value(text));
    assert_eq!(parsed.duplicate().to_value(), value(text));
}

#[test]
fn text_that_is_no_json_counts_as_an_empty_object() {
    assert_eq!(parse_or_empty("oops").to_value(), value("{}"));
    assert_eq!(parse_or_empty("[1]").to_value(), value("[1]"));
}

#[test]
fn json_numbers() {
    assert_eq!(Json::unsigned(u64::MAX).compact(), "18446744073709551615");
    assert_eq!(Json::signed(-7).compact(), "-7");
    assert_eq!(Json::signed(7).to_value(), Json::unsigned(7).to_value());
}

#[test]
fn json_fields() {
    let mut object = JsonObject::new();
    assert!(object.is_empty());
    object.set("a", Json::unsigned(1));
    object.set("b", Json::text("x"));
    object.set("a", Json::Bool(true));
    assert!(!object.is_empty());
    assert_eq!(object.get("a").and_then(|v| v.as_bool()), Some(true));
    let json = Json::Object(object);
    assert_eq!(json.to_value(), value(r#"{"a":true,"b":"x"}"#));
    assert_eq!(json.get_str("b"), Some("x"));
    assert_eq!(json.get_str("a"), None);
    assert!(json.get("c").is_none());
    assert!(Json::Null.get("a").is_none());
    let mut object = JsonObject::new().with("a", Json::Null).with("b", Json::empty_object());
    object.remove("a");
    object.remove("zz");
    assert_eq!(Json::Object(object).to_value(), value(r#"{"b":{}}"#));
}

#[test]
fn the_later_of_two_fields_counts() {
    let twice = JsonObject {
        fields: vec![("a".to_string(), Json::Null), ("a".to_string(), Json::Bool(false))],
    };
    assert_eq!(twice.get("a").and_then(|v| v.as_bool()), Some(false));
    assert_eq!(Json::Object(twice).to_value(), value(r#"{"a":false}"#));
    assert_eq!(Json::parse(r#"{"a":1,"a":2}"#).unwrap().to_value(), value(r#"{"a":2}"#));
}

#[test]
fn identifiers_have_their_form() {
    let id = new_completion_id();
    assert_eq!(id.len(), 45);
    assert!(id.starts_with("chatcmpl-"));
    let uuid = &id.as_bytes()[9..];
    for (i, b) in uuid.iter().enumerate() {
        if [8, 13, 18, 23].contains(&i) {
            assert_eq!(*b, b'-');
        } else {
            assert!(b.is_ascii_digit() || (b'a'..=b'f').contains(b));
        }
    }
    assert_eq!(uuid[14], b'4');
    assert!(b"89ab".contains(&uuid[19]));
}

#[test]
fn machines_have_identifiers_that_fit_into_headers() {
    let id = new_machine_id();
    assert_eq!(id.len(), 64);
    assert!(id.bytes().all(|b| b.is_ascii_digit() || (b'a'..=b'f').contains(&b)));
    assert_eq!(id.as_bytes()[12], b'4');
    assert_eq!(id.as_bytes()[44], b'4');
    assert_ne!(id, new_machine_id());
    assert!(is_header_text(&id));
    assert!(get_kiro_headers(&id).get("x-amz-user-agent").unwrap().to_str().unwrap().ends_with(&id));
}

#[test]
fn a_written_object_is_found_whole_and_read_back() {
    let text = r#"{"a{":"}\"\\{","b":[{"c":{}},-7,18446744073709551615],"ü":"\u0001\n"}"#;
    let json = Json::parse(text).unwrap();
    let written = json.compact();
    for (before, after) in [("", ""), ("ü}{\"", "}}"), ("event", "\"{")] {
        let whole = format!("{before}{written}{after}");
        let end = find_matching_brace(&whole, before.len()).unwrap();
        assert_eq!(end, before.len() + written.len() - 1);
        assert_eq!(&whole[before.len()..=end], written);
    }
    assert_eq!(Json::parse(&written).unwrap().to_value(), json.to_value());
}

#[test]
fn how_deep_a_text_may_nest() {
    let nested = |levels: usize| format!("{}{}", "[".repeat(levels), "]".repeat(levels));
    assert!(Json::parse(&nested(127)).is_some());
    assert!(Json::parse(&nested(128)).is_none());
    assert_eq!(Json::parse(&nested(127)).unwrap().compact(), nested(127));
}

#[test]
fn the_smallest_integer_is_read_back() {
    for n in [i64::MIN, -1, 0, i64::MAX] {
        let json = Json::signed(n);
        assert_eq!(Json::parse(&json.compact()).unwrap().to_value(), json.to_value());
    }
}

#[test]
fn a_field_that_marks_json_text_is_not_read_back() {
    let marked = |text: &str| {
        Json::Object(JsonObject::new().with("$serde_json::private::RawValue", Json::text(text)))
    };
    let number = marked("5").compact();
    assert_eq!(number, r#"{"$serde_json::private::RawValue":"5"}"#);
    assert_eq!(find_matching_brace(&number, 0), Some(number.len() - 1));
    assert_eq!(Json::parse(&number).unwrap().to_value(), value("5"));
    assert!(Json::parse(&marked("x").compact()).is_none());
}
