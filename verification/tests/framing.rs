use yzz_llm_proxy::provider::kiro::framing::{find_matching_brace, FrameBuffer};

fn frames_of(chunks: &[&str]) -> (Vec<String>, String) {
    let mut buffer = FrameBuffer::new();
    let mut out = Vec::new();
    for chunk in chunks {
        buffer.push(chunk);
        while let Some(frame) = buffer.take_frame() {
            out.push(frame);
        }
    }
    (out, buffer.text)
}

#[test]
fn brace_of_a_simple_object() {
    assert_eq!(find_matching_brace(r#"{"content": "hello"}"#, 0), Some(19));
}

#[test]
fn brace_of_nested_objects_is_the_outermost() {
    let text = r#"{"input": {"sql": "SELECT"}}"#;
    assert_eq!(find_matching_brace(text, 0), Some(27));
    assert_eq!(text.len() - 1, 27);
    assert_eq!(find_matching_brace(text, 10), Some(26));
}

#[test]
fn braces_inside_strings_do_not_count() {
    assert_eq!(find_matching_brace(r#"{"msg": "hello { world }"}"#, 0), Some(25));
    assert_eq!(find_matching_brace(r#"{"a":"}"}"#, 0), Some(8));
}

#[test]
fn escaped_quotes_do_not_end_a_string() {
    let text = r#"{"msg": "say \"hi\""}"#;
    assert_eq!(find_matching_brace(text, 0), Some(20));
    assert_eq!(text.len() - 1, 20);
    assert_eq!(find_matching_brace(r#"{"a":"\\"}"#, 0), Some(9));
    assert_eq!(find_matching_brace(r#"{"a":"\"}"#, 0), None);
}

#[test]
fn incomplete_object_has_no_brace() {
    assert_eq!(find_matching_brace(r#"{"content": "hel"#, 0), None);
    assert_eq!(find_matching_brace("", 0), None);
    assert_eq!(find_matching_brace("{}", 7), None);
}

#[test]
fn a_backslash_outside_a_string_has_no_meaning() {
    assert_eq!(find_matching_brace(r#"{\}"#, 0), Some(2));
}

#[test]
fn a_closing_brace_without_an_opening_one_matches_nothing() {
    assert_eq!(find_matching_brace("}{}", 0), None);
    assert_eq!(find_matching_brace("}{}", 1), Some(2));
}

#[test]
fn brace_offsets_count_bytes() {
    let text = "é{\"ü\":1}";
    assert_eq!(find_matching_brace(text, 2), Some(text.len() - 1));
}

#[test]
fn a_frame_is_taken_with_its_header() {
    let chunk = "\u{0}\u{0}:message-type\u{7}\u{0}\u{5}event{\"content\":\"Hello\"}\u{27}\u{76}";
    let (frames, rest) = frames_of(&[chunk]);
    assert_eq!(frames, vec![r#"{"content":"Hello"}"#.to_string()]);
    assert_eq!(rest, "\u{27}\u{76}");
}

#[test]
fn several_frames_come_out_in_order() {
    let (frames, rest) = frames_of(&["xevent{\"a\":1}yyevent{\"b\":{\"c\":2}}zevent{\"d"]);
    assert_eq!(frames, vec![r#"{"a":1}"#.to_string(), r#"{"b":{"c":2}}"#.to_string()]);
    assert_eq!(rest, "zevent{\"d");
}

#[test]
fn a_stream_without_marker_stays_in_the_buffer() {
    let (frames, rest) = frames_of(&["event", " {\"a\":1}"]);
    assert!(frames.is_empty());
    assert_eq!(rest, "event {\"a\":1}");
}

#[test]
fn an_unfinished_frame_holds_back_what_follows() {
    let (frames, rest) = frames_of(&["event{\"a\":\"event{}"]);
    assert!(frames.is_empty());
    assert_eq!(rest, "event{\"a\":\"event{}");
}

#[test]
fn the_cut_into_chunks_does_not_matter() {
    let text = "\u{1}event{\"a\":\"x}y\"}--event{\"b\":\"ü\\\"\"}event{\"c\":{}}tail";
    let whole = frames_of(&[text]);
    assert_eq!(whole.0.len(), 3);
    for cut in 0..=text.len() {
        if text.is_char_boundary(cut) {
            let parts = frames_of(&[&text[..cut], &text[cut..]]);
            assert_eq!(parts, whole);
        }
    }
}

#[test]
fn events_are_read_from_raw_bytes() {
    let mut buffer = FrameBuffer::new();
    let mut bytes: Vec<u8> = vec![0x00, 0x89, 0xff];
    bytes.extend_from_slice(b"event{\"content\":\"Hel");
    assert!(buffer.read_events(&bytes).is_empty());
    let events = buffer.read_events(b"lo\"}\xc3event{oops}event{\"stop\":true}");
    assert_eq!(events.len(), 2);
    assert_eq!(events[0].get_str("content"), Some("Hello"));
    assert_eq!(events[1].get("stop").and_then(|v| v.as_bool()), Some(true));
    assert_eq!(buffer.text, "");
}
