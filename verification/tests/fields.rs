use soralog::message::get_message_tag;
use soralog::message::parse_log_line;
use soralog::message::FieldName;
use soralog::message::FieldValue;
use soralog::message::LogLevel;
use soralog::message::Message;
use soralog::message::MessageKind;
use soralog::message::ParseError;

fn as_string(v: Option<FieldValue>) -> Option<String> {
    match v {
        Some(FieldValue::String(s)) => Some(s),
        _ => None,
    }
}

#[test]
fn tag_with_uppercase_digits_and_hyphen_is_extracted() {
    assert_eq!(get_message_tag("AB-12|text"), Some("AB-12".to_string()));
    assert_eq!(get_message_tag("ABC-1|rest"), Some("ABC-1".to_string()));
    assert_eq!(get_message_tag("  X9 |y"), Some("X9".to_string()));
}

#[test]
fn lowercase_or_spaced_tag_is_rejected() {
    assert_eq!(get_message_tag("ok tag|text"), None);
    assert_eq!(get_message_tag("abc|text"), None);
    assert_eq!(get_message_tag("no bar here"), None);
}

#[test]
fn cluster_line_answers_its_fields() {
    let line = r#"{"id":"i1","level":"error","msg":"TAG-7|boom","domain":["a"],"sora_version":"v","node":"n1","timestamp":"2023-01-02T03:04:05Z"}"#;
    let m = parse_log_line(MessageKind::Cluster, "cluster.jsonl", line).unwrap();
    match m.get_field_value(FieldName::Kind) {
        Some(FieldValue::Kind(MessageKind::Cluster)) => {}
        _ => panic!("kind"),
    }
    match m.get_field_value(FieldName::Level) {
        Some(FieldValue::Level(LogLevel::Error)) => {}
        _ => panic!("level"),
    }
    assert_eq!(
        as_string(m.get_field_value(FieldName::Msg)),
        Some("TAG-7|boom".to_string())
    );
    assert_eq!(
        as_string(m.get_field_value(FieldName::MsgTag)),
        Some("TAG-7".to_string())
    );
    assert_eq!(
        as_string(m.get_field_value(FieldName::Timestamp)),
        Some("2023-01-02T03:04:05Z".to_string())
    );
    match m.get_field_value(FieldName::Path) {
        Some(FieldValue::Path(p)) => assert_eq!(p, "cluster.jsonl"),
        _ => panic!("path"),
    }
    assert!(m.get_field_value(FieldName::Url).is_none());
    assert_eq!(m.level(), LogLevel::Error);
}

#[test]
fn cluster_line_missing_a_required_field_fails() {
    let line = r#"{"level":"info","msg":"m","domain":[],"sora_version":"v","node":"n","timestamp":"t"}"#;
    match parse_log_line(MessageKind::Cluster, "p", line) {
        Err(ParseError::MissingField { path, field }) => {
            assert_eq!(path, "p");
            assert_eq!(field, "id");
        }
        _ => panic!("expected a missing-field error"),
    }
}

#[test]
fn cluster_line_with_a_mistyped_field_fails() {
    let line = r#"{"id":7,"level":"info","msg":"m","domain":[],"sora_version":"v","node":"n","timestamp":"t"}"#;
    match parse_log_line(MessageKind::Cluster, "p", line) {
        Err(ParseError::WrongFieldType { field, .. }) => assert_eq!(field, "id"),
        _ => panic!("expected a wrong-type error"),
    }
}

#[test]
fn a_line_that_is_not_json_fails() {
    match parse_log_line(MessageKind::Debug, "p", "not json") {
        Err(ParseError::InvalidJson { path, .. }) => assert_eq!(path, "p"),
        _ => panic!("expected the invalid-JSON error"),
    }
}

#[test]
fn a_line_that_is_not_an_object_fails() {
    match parse_log_line(MessageKind::Debug, "p", "[1,2]") {
        Err(ParseError::NotAnObject { path }) => assert_eq!(path, "p"),
        _ => panic!("expected the not-an-object error"),
    }
}

#[test]
fn generic_record_renders_scalars_and_sentinels() {
    let line = r#"{"msg":"hello","timestamp":"t0","url":7,"json":{"x":1},"extra":[1]}"#;
    let m = parse_log_line(MessageKind::Signaling, "signaling.jsonl", line).unwrap();
    assert_eq!(
        as_string(m.get_field_value(FieldName::Msg)),
        Some("hello".to_string())
    );
    assert_eq!(
        as_string(m.get_field_value(FieldName::Timestamp)),
        Some("t0".to_string())
    );
    // a number demanded as a scalar string renders as its token
    assert_eq!(
        as_string(m.get_field_value(FieldName::Url)),
        Some("7".to_string())
    );
    // the raw JSON form passes through for the json field
    match m.get_field_value(FieldName::Json) {
        Some(FieldValue::Json(_)) => {}
        _ => panic!("json passthrough"),
    }
    assert!(m.get_field_value(FieldName::Operation).is_none());
}

#[test]
fn generic_record_level_defaults_to_info() {
    let line = r#"{"msg":"x"}"#;
    let m = parse_log_line(MessageKind::Debug, "debug.jsonl", line).unwrap();
    assert!(m.get_field_value(FieldName::Level).is_none());
    assert_eq!(m.level(), LogLevel::Info);
    let line2 = r#"{"level":"warning"}"#;
    let m2 = parse_log_line(MessageKind::Debug, "debug.jsonl", line2).unwrap();
    assert_eq!(m2.level(), LogLevel::Warning);
}

#[test]
fn unknown_string_keys_answer_nothing() {
    let line = r#"{"msg":"x"}"#;
    let m = parse_log_line(MessageKind::Debug, "debug.jsonl", line).unwrap();
    assert!(m.get_value("nonsense").is_none());
    assert!(m.get_value("msg").is_some());
}

#[test]
fn api_line_parses_and_answers_operation() {
    let line = r#"{"timestamp":"t1","operation":"CreateChannel","json":{"k":true}}"#;
    let m = parse_log_line(MessageKind::Api, "api.jsonl", line).unwrap();
    assert_eq!(m.kind(), MessageKind::Api);
    assert_eq!(
        as_string(m.get_field_value(FieldName::Operation)),
        Some("CreateChannel".to_string())
    );
}

#[test]
fn auth_webhook_line_parses_with_optional_fields_absent() {
    let line = r#"{"id":"a1","timestamp":"t2","req":{"type":"auth"}}"#;
    let m = parse_log_line(MessageKind::AuthWebhook, "auth_webhook.jsonl", line).unwrap();
    assert!(m.get_field_value(FieldName::Url).is_none());
    assert!(m.get_field_value(FieldName::Res).is_none());
    match m.get_field_value(FieldName::Req) {
        Some(FieldValue::Json(_)) => {}
        _ => panic!("req"),
    }
}

#[test]
fn crash_record_answers_only_kind_and_path() {
    let got = soralog::message::CrashMessage::parse(
        "crash.log".to_string(),
        "=CRASH REPORT x",
    )
    .unwrap();
    let m = Message::Crash(got.into_iter().next().unwrap());
    match m.get_field_value(FieldName::Kind) {
        Some(FieldValue::Kind(MessageKind::Crash)) => {}
        _ => panic!("kind"),
    }
    match m.get_field_value(FieldName::Path) {
        Some(FieldValue::Path(p)) => assert_eq!(p, "crash.log"),
        _ => panic!("path"),
    }
    assert!(m.get_field_value(FieldName::Msg).is_none());
}

#[test]
fn parse_error_messages_name_path_and_reason() {
    let e = ParseError::MissingField {
        path: "p".to_string(),
        field: "id".to_string(),
    };
    assert_eq!(e.message(), "p: missing field: id");
    let e2 = ParseError::MissingCrashMarker { path: "c".to_string() };
    assert_eq!(
        e2.message(),
        "c: crash log does not start with the crash report marker"
    );
    let e3 = ParseError::UnsupportedKind { path: "x".to_string() };
    assert_eq!(e3.message(), "x: no line parser exists for this kind of file");
}
