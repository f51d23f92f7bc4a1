use soralog::json::lookup;
use soralog::json::Json;
use soralog::message::parse_log_line;
use soralog::message::Message;
use soralog::message::MessageKind;

fn generic_fields(m: Message) -> Vec<(String, Json)> {
    match m {
        Message::Debug(g)
        | Message::EventWebhook(g)
        | Message::EventWebhookError(g)
        | Message::Internal(g)
        | Message::SessionWebhook(g)
        | Message::SessionWebhookError(g)
        | Message::Signaling(g)
        | Message::Sora(g)
        | Message::StatsWebhook(g)
        | Message::StatsWebhookError(g) => g.fields,
        _ => panic!("not a generic record"),
    }
}

fn text_of(fields: &Vec<(String, Json)>, key: &str) -> Option<String> {
    match lookup(fields, key) {
        Some(Json::Text(s)) => Some(s.clone()),
        _ => None,
    }
}

#[test]
fn domain_array_extends_the_kind_name() {
    let line = r#"{"domain":["a","b"],"msg":"m"}"#;
    let m = parse_log_line(MessageKind::Signaling, "signaling.jsonl", line).unwrap();
    let fields = generic_fields(m);
    assert_eq!(text_of(&fields, "@domain"), Some("signaling.a.b".to_string()));
}

#[test]
fn a_domain_array_with_non_strings_is_ignored() {
    let line = r#"{"domain":[7],"msg":"m"}"#;
    let m = parse_log_line(MessageKind::Signaling, "signaling.jsonl", line).unwrap();
    let fields = generic_fields(m);
    assert_eq!(text_of(&fields, "@domain"), Some("signaling".to_string()));
    let line2 = r#"{"domain":["a",null],"msg":"m"}"#;
    let m2 = parse_log_line(MessageKind::Signaling, "signaling.jsonl", line2).unwrap();
    let fields2 = generic_fields(m2);
    assert_eq!(text_of(&fields2, "@domain"), Some("signaling".to_string()));
}

#[test]
fn without_a_domain_field_the_kind_name_stands_alone() {
    let line = r#"{"msg":"m"}"#;
    let m = parse_log_line(MessageKind::Signaling, "signaling.jsonl", line).unwrap();
    let fields = generic_fields(m);
    assert_eq!(text_of(&fields, "@domain"), Some("signaling".to_string()));
}

#[test]
fn type_beats_operation() {
    let line = r#"{"type":"t1","operation":"op"}"#;
    let m = parse_log_line(MessageKind::Debug, "debug.jsonl", line).unwrap();
    let fields = generic_fields(m);
    assert_eq!(text_of(&fields, "@type"), Some("t1".to_string()));
}

#[test]
fn operation_beats_the_nested_request_type() {
    let line = r#"{"operation":"op","req":{"type":"rt"}}"#;
    let m = parse_log_line(MessageKind::Debug, "debug.jsonl", line).unwrap();
    let fields = generic_fields(m);
    assert_eq!(text_of(&fields, "@type"), Some("op".to_string()));
}

#[test]
fn nested_request_type_beats_the_message_tag() {
    let line = r#"{"req":{"type":"rt"},"msg":"ABC-1|rest"}"#;
    let m = parse_log_line(MessageKind::Debug, "debug.jsonl", line).unwrap();
    let fields = generic_fields(m);
    assert_eq!(text_of(&fields, "@type"), Some("rt".to_string()));
}

#[test]
fn the_message_tag_is_the_last_resort() {
    let line = r#"{"msg":"ABC-1|rest"}"#;
    let m = parse_log_line(MessageKind::Debug, "debug.jsonl", line).unwrap();
    let fields = generic_fields(m);
    assert_eq!(text_of(&fields, "@type"), Some("ABC-1".to_string()));
}

#[test]
fn an_invalid_tag_leaves_type_absent() {
    let line = r#"{"msg":"ok tag|text"}"#;
    let m = parse_log_line(MessageKind::Debug, "debug.jsonl", line).unwrap();
    let fields = generic_fields(m);
    assert!(lookup(&fields, "@type").is_none());
}

#[test]
fn path_is_recorded_as_a_synthetic_field() {
    let line = r#"{"msg":"m"}"#;
    let m = parse_log_line(MessageKind::Sora, "logs/sora.jsonl", line).unwrap();
    let fields = generic_fields(m);
    assert_eq!(text_of(&fields, "@path"), Some("logs/sora.jsonl".to_string()));
}

#[test]
fn original_content_is_kept_next_to_the_synthetic_fields() {
    let line = r#"{"msg":"m","extra":7}"#;
    let m = parse_log_line(MessageKind::Sora, "sora.jsonl", line).unwrap();
    let fields = generic_fields(m);
    assert_eq!(text_of(&fields, "msg"), Some("m".to_string()));
    match lookup(&fields, "extra") {
        Some(Json::Number(n)) => assert_eq!(n, "7"),
        _ => panic!("extra"),
    }
}
