use soralog::command_count::CountCommand;
use soralog::command_sort::SortCommand;
use soralog::json::json_text;
use soralog::message::parse_log_line;
use soralog::message::FieldName;
use soralog::message::FieldValue;
use soralog::message::Message;
use soralog::message::MessageKind;
use core::cmp::Ordering;

fn cluster(ts: &str, msg: &str) -> Message {
    let line = format!(
        r#"{{"id":"i","level":"info","msg":"{msg}","domain":[],"sora_version":"v","node":"n","timestamp":"{ts}"}}"#
    );
    parse_log_line(MessageKind::Cluster, "cluster.jsonl", &line).unwrap()
}

fn timestamps(msgs: &Vec<Message>) -> Vec<String> {
    msgs.iter()
        .map(|m| match m.get_field_value(FieldName::Timestamp) {
            Some(FieldValue::String(s)) => s,
            _ => panic!("timestamp"),
        })
        .collect()
}

fn rendered(msgs: &Vec<Message>) -> Vec<String> {
    msgs.iter().map(|m| json_text(&m.to_json())).collect()
}

#[test]
fn sorting_by_timestamp_orders_the_records() {
    let cmd = SortCommand { keys: vec!["timestamp".to_string()] };
    let mut msgs = vec![cluster("3", "c"), cluster("1", "a"), cluster("2", "b")];
    cmd.sort(&mut msgs);
    assert_eq!(timestamps(&msgs), vec!["1", "2", "3"]);
}

#[test]
fn resorting_a_sorted_sequence_changes_nothing() {
    let cmd = SortCommand { keys: vec!["timestamp".to_string(), "msg".to_string()] };
    let mut msgs = vec![
        cluster("2", "x"),
        cluster("1", "q"),
        cluster("2", "a"),
        cluster("1", "z"),
    ];
    cmd.sort(&mut msgs);
    let once = rendered(&msgs);
    cmd.sort(&mut msgs);
    assert_eq!(rendered(&msgs), once);
}

#[test]
fn equal_keys_keep_their_input_order() {
    let cmd = SortCommand { keys: vec!["timestamp".to_string()] };
    let mut msgs = vec![
        cluster("1", "first"),
        cluster("0", "early"),
        cluster("1", "second"),
        cluster("1", "third"),
    ];
    cmd.sort(&mut msgs);
    let texts: Vec<String> = msgs
        .iter()
        .map(|m| match m.get_field_value(FieldName::Msg) {
            Some(FieldValue::String(s)) => s,
            _ => panic!("msg"),
        })
        .collect();
    assert_eq!(texts, vec!["early", "first", "second", "third"]);
}

#[test]
fn records_without_the_key_come_first() {
    let cmd = SortCommand { keys: vec!["operation".to_string()] };
    let api = parse_log_line(
        MessageKind::Api,
        "api.jsonl",
        r#"{"timestamp":"t","operation":"B","json":null}"#,
    )
    .unwrap();
    let mut msgs = vec![api, cluster("1", "no operation field")];
    cmd.sort(&mut msgs);
    assert!(msgs[0].get_field_value(FieldName::Operation).is_none());
    assert!(msgs[1].get_field_value(FieldName::Operation).is_some());
}

#[test]
fn field_values_compare_by_their_natural_order() {
    let a = FieldValue::String("abc".to_string());
    let b = FieldValue::String("abd".to_string());
    assert_eq!(a.compare(&b), Ordering::Less);
    assert_eq!(b.compare(&a), Ordering::Greater);
    assert_eq!(a.compare(&a), Ordering::Equal);
    let lv = FieldValue::Level(soralog::message::LogLevel::Error);
    let le = FieldValue::Level(soralog::message::LogLevel::Emergency);
    assert_eq!(lv.compare(&le), Ordering::Less);
}

#[test]
fn differently_shaped_values_compare_by_their_rendering() {
    // "error" (a level) against a plain string: the renderings decide
    let l = FieldValue::Level(soralog::message::LogLevel::Error);
    let s = FieldValue::String("errz".to_string());
    assert_eq!(l.compare(&s), Ordering::Less);
    let k = FieldValue::Kind(MessageKind::Api);
    let t = FieldValue::String("api".to_string());
    assert_eq!(k.compare(&t), Ordering::Equal);
}

#[test]
fn counting_by_kind_and_level_tallies_every_record() {
    let cmd = CountCommand { keys: vec!["kind".to_string(), "level".to_string()] };
    let msgs = vec![cluster("1", "a"), cluster("2", "b"), cluster("3", "c")];
    let counter = cmd.count(&msgs);
    assert_eq!(
        json_text(&counter.to_json()),
        r#"{"cluster":{"info":3}}"#
    );
}

#[test]
fn counting_with_no_keys_counts_records() {
    let cmd = CountCommand { keys: vec![] };
    let msgs = vec![cluster("1", "a"), cluster("2", "b")];
    let counter = cmd.count(&msgs);
    assert_eq!(json_text(&counter.to_json()), "2");
}

#[test]
fn missing_values_are_counted_under_other() {
    let cmd = CountCommand { keys: vec!["operation".to_string()] };
    let msgs = vec![cluster("1", "a")];
    let counter = cmd.count(&msgs);
    assert_eq!(json_text(&counter.to_json()), r#"{"_OTHER_":1}"#);
}

#[test]
fn counter_children_stay_in_key_order() {
    let cmd = CountCommand { keys: vec!["msg".to_string()] };
    let msgs = vec![cluster("1", "zz"), cluster("2", "aa"), cluster("3", "zz")];
    let counter = cmd.count(&msgs);
    assert_eq!(
        json_text(&counter.to_json()),
        r#"{"aa":1,"zz":2}"#
    );
}
