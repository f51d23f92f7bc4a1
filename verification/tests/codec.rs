use soralog::json::json_text;
use soralog::json::lookup;
use soralog::json::parse_json;
use soralog::json::pretty_text;
use soralog::json::scalar_text;
use soralog::json::Json;
use soralog::message::parse_log_line;
use soralog::message::MessageKind;
use soralog::text::u64_text;

#[test]
fn parsing_really_parses() {
    // a parse that handed its input back unchanged would keep the quotes
    let j = parse_json("\"a\"").unwrap();
    assert_eq!(scalar_text(&j), "a");
    let arr = parse_json("[1, 2]").unwrap();
    match &arr {
        Json::Array(items) => assert_eq!(items.len(), 2),
        _ => panic!("array"),
    }
    assert!(parse_json("{oops").is_err());
}

#[test]
fn compact_encoding_matches_the_reference_encoder() {
    let cases = [
        r#"{"a":[1,true,null,"x\"y"],"b":{"c":1.5}}"#,
        r#"[""]"#,
        r#""line\nbreak""#,
        r#"{"k":"tab\tand\u0001ctl"}"#,
        "12345",
        "-0.25",
        "null",
    ];
    for line in cases {
        let mine = json_text(&parse_json(line).unwrap());
        let v: serde_json::Value = serde_json::from_str(line).unwrap();
        let reference = serde_json::to_string(&v).unwrap();
        assert_eq!(mine, reference);
    }
}

#[test]
fn encoded_text_parses_back_to_the_same_value() {
    let line = r#"{"z":1,"a":[{"q":null},false],"s":"e\\s\"c"}"#;
    let j = parse_json(line).unwrap();
    let text = json_text(&j);
    let again = parse_json(&text).unwrap();
    assert_eq!(json_text(&again), text);
}

#[test]
fn generic_record_round_trips_through_its_json() {
    let line = r#"{"msg":"m","n":42,"deep":{"x":[1,2]}}"#;
    let m = parse_log_line(MessageKind::Internal, "internal.jsonl", line).unwrap();
    let encoded = json_text(&m.to_json());
    // read the emitted line back as the stream readers do
    let again =
        soralog::message::message_from_json("<test>", parse_json(&encoded).unwrap()).unwrap();
    let (f1, p1, f2, p2) = match (m, again) {
        (soralog::message::Message::Internal(a), soralog::message::Message::Internal(b)) => {
            (a.fields, a.path, b.fields, b.path)
        }
        _ => panic!("variant"),
    };
    assert_eq!(p1, p2);
    assert_eq!(f1.len(), f2.len());
    // field for field, the original content and synthesized fields agree
    for (k, v) in &f1 {
        match lookup(&f2, k) {
            Some(w) => assert_eq!(json_text(v), json_text(w)),
            None => panic!("lost key {k}"),
        }
    }
}

#[test]
fn record_json_carries_the_kind_tag() {
    let line = r#"{"timestamp":"t","operation":"o","json":null}"#;
    let m = parse_log_line(MessageKind::Api, "api.jsonl", line).unwrap();
    let text = json_text(&m.to_json());
    assert_eq!(
        text,
        r#"{"kind":"api","timestamp":"t","operation":"o","json":null,"path":"api.jsonl"}"#
    );
}

#[test]
fn pretty_text_indents_by_two_spaces() {
    let j = parse_json(r#"{"a":1,"b":[true]}"#).unwrap();
    assert_eq!(
        pretty_text(&j),
        "{\n  \"a\": 1,\n  \"b\": [\n    true\n  ]\n}"
    );
    let v: serde_json::Value = serde_json::from_str(r#"{"a":1,"b":[true]}"#).unwrap();
    assert_eq!(pretty_text(&j), serde_json::to_string_pretty(&v).unwrap());
}

#[test]
fn empty_composites_stay_on_one_line() {
    let j = parse_json(r#"{"a":[],"b":{}}"#).unwrap();
    assert_eq!(pretty_text(&j), "{\n  \"a\": [],\n  \"b\": {}\n}");
}

#[test]
fn numbers_keep_their_parsed_rendering() {
    let j = parse_json("[1e3, 0.5, -7]").unwrap();
    let v: serde_json::Value = serde_json::from_str("[1e3, 0.5, -7]").unwrap();
    assert_eq!(json_text(&j), serde_json::to_string(&v).unwrap());
}

#[test]
fn decimal_rendering_of_counts() {
    assert_eq!(u64_text(0), "0");
    assert_eq!(u64_text(7), "7");
    assert_eq!(u64_text(120), "120");
    assert_eq!(u64_text(18_446_744_073_709_551_615), "18446744073709551615");
}
