use soralog::command_cat::CatCommand;
use soralog::command_cat::FileParser;
use soralog::command_filter::FilterCommand;
use soralog::command_list::strip_path_prefix;
use soralog::command_table::cell_text;
use soralog::command_table::sort_rows;
use soralog::command_table::truncate_cell;
use soralog::command_table::Column;
use soralog::command_with::WithCommand;
use soralog::json::json_text;
use soralog::json::parse_json;
use soralog::json::Json;
use soralog::json_stream::ignore_broken_pipe;
use soralog::json_stream::WriteOutcome;
use soralog::log_file::LogFileKind;
use soralog::log_file::LogFilePathIterator;
use soralog::message::message_from_json;
use soralog::message::parse_log_line;
use soralog::message::ParseError;
use soralog::message::FieldName;
use soralog::message::LogLevel;
use soralog::message::Message;
use soralog::message::MessageKind;
use soralog::summary::Summary;

fn cluster_at(level: &str) -> Message {
    let line = format!(
        r#"{{"id":"i","level":"{level}","msg":"m","domain":[],"sora_version":"v","node":"n","timestamp":"t"}}"#
    );
    parse_log_line(MessageKind::Cluster, "cluster.jsonl", &line).unwrap()
}

#[test]
fn filter_keeps_records_at_or_above_the_level() {
    let cmd = FilterCommand { level: Some(LogLevel::Warning) };
    let kept = cmd.filter_messages(vec![
        cluster_at("debug"),
        cluster_at("warning"),
        cluster_at("error"),
        cluster_at("info"),
    ]);
    assert_eq!(kept.len(), 2);
    assert_eq!(kept[0].level(), LogLevel::Warning);
    assert_eq!(kept[1].level(), LogLevel::Error);
}

#[test]
fn filter_without_a_level_keeps_everything() {
    let cmd = FilterCommand { level: None };
    let kept = cmd.filter_messages(vec![cluster_at("debug")]);
    assert_eq!(kept.len(), 1);
}

#[test]
fn projection_emits_chosen_fields_and_null_for_missing() {
    let cmd = WithCommand { fields: vec![FieldName::Kind, FieldName::Msg, FieldName::Url] };
    let entries = cmd.project(&cluster_at("info"));
    let obj = Json::Object(entries);
    assert_eq!(json_text(&obj), r#"{"kind":"cluster","msg":"m","url":null}"#);
}

#[test]
fn broken_pipe_stops_the_output_quietly() {
    // P8 as a run: the consumer closes after two of five records
    let outcomes = vec![
        WriteOutcome::Done,
        WriteOutcome::Done,
        WriteOutcome::BrokenPipe,
        WriteOutcome::Done,
        WriteOutcome::Done,
    ];
    let mut written = 0;
    let mut failed = false;
    for o in outcomes {
        match ignore_broken_pipe(o) {
            Ok(false) => written += 1,
            Ok(true) => break,
            Err(_) => {
                failed = true;
                break;
            }
        }
    }
    assert_eq!(written, 2);
    assert!(!failed);
}

#[test]
fn other_stream_failures_propagate() {
    match ignore_broken_pipe(WriteOutcome::Failed("disk full".to_string())) {
        Err(e) => assert_eq!(e, "disk full"),
        _ => panic!("expected the failure to propagate"),
    }
}

#[test]
fn cell_rendering_escapes_and_joins() {
    assert_eq!(cell_text(&parse_json("null").unwrap()), "");
    assert_eq!(cell_text(&parse_json("true").unwrap()), "true");
    assert_eq!(cell_text(&parse_json("1.5").unwrap()), "1.5");
    assert_eq!(cell_text(&parse_json(r#""a|b""#).unwrap()), "a\\|b");
    assert_eq!(cell_text(&parse_json(r#"[1,"x",[2]]"#).unwrap()), "1_x_2");
    assert_eq!(cell_text(&parse_json(r#"{"k":1}"#).unwrap()), "<object>");
}

#[test]
fn long_cells_are_cut_with_an_ellipsis() {
    assert_eq!(truncate_cell("abcdef", 4), "abcd...");
    assert_eq!(truncate_cell("abc", 4), "abc");
    assert_eq!(truncate_cell("abcd", 4), "abcd");
}

#[test]
fn columns_grow_to_their_widest_cell() {
    let mut c = Column::new("msg");
    assert_eq!(c.width, 3);
    c.update_width("wider");
    assert_eq!(c.width, 5);
    c.update_width("x");
    assert_eq!(c.width, 5);
}

#[test]
fn the_walk_hands_each_path_out_once() {
    let mut it = LogFilePathIterator::new("root".to_string());
    let p = it.pop_candidate().unwrap();
    assert_eq!(p, "root");
    assert!(it.mark_visited(&p));
    assert!(!it.mark_visited(&p));
    it.push_child("root/a".to_string());
    it.push_child("root/b".to_string());
    let q = it.pop_candidate().unwrap();
    assert_eq!(q, "root/b");
    assert!(it.mark_visited(&q));
    let r = it.pop_candidate().unwrap();
    assert_eq!(r, "root/a");
    assert!(it.pop_candidate().is_none());
}

#[test]
fn paths_are_made_relative_to_the_root() {
    assert_eq!(
        strip_path_prefix("root/dir/api.jsonl", "root"),
        Some("dir/api.jsonl".to_string())
    );
    assert_eq!(strip_path_prefix("elsewhere/x", "root"), None);
    assert_eq!(strip_path_prefix("root", "root"), Some("".to_string()));
}

#[test]
fn summary_tallies_files_and_messages() {
    let mut s = Summary::new();
    s.handle_file(LogFileKind::Cluster);
    s.handle_file(LogFileKind::Cluster);
    s.handle_file(LogFileKind::Api);
    s.handle_message(LogFileKind::Cluster, LogLevel::Error);
    s.handle_message(LogFileKind::Cluster, LogLevel::Info);
    assert_eq!(s.files, 3);
    assert_eq!(s.files_of(LogFileKind::Cluster), 2);
    assert_eq!(s.files_of(LogFileKind::Api), 1);
    assert_eq!(s.files_of(LogFileKind::Crash), 0);
    assert_eq!(s.messages, 2);
    assert_eq!(s.messages_of_level(LogLevel::Error), 1);
    assert_eq!(s.messages_of_kind(LogFileKind::Cluster), 2);
}

#[test]
fn stream_read_back_pins_its_errors() {
    // no kind tag
    match message_from_json("<s>", parse_json(r#"{"msg":"m"}"#).unwrap()) {
        Err(ParseError::MissingField { path, field }) => {
            assert_eq!(path, "<s>");
            assert_eq!(field, "kind");
        }
        _ => panic!("expected a missing kind tag error"),
    }
    // unknown kind tag
    match message_from_json("<s>", parse_json(r#"{"kind":"mystery"}"#).unwrap()) {
        Err(ParseError::WrongFieldType { field, .. }) => assert_eq!(field, "kind"),
        _ => panic!("expected a wrong kind tag error"),
    }
    // a kind with no modeled record shape
    match message_from_json("<s>", parse_json(r#"{"kind":"auth_webhook_error"}"#).unwrap()) {
        Err(ParseError::UnsupportedKind { path }) => assert_eq!(path, "<s>"),
        _ => panic!("expected the unsupported kind error"),
    }
    // not an object at all
    match message_from_json("<s>", parse_json("[1]").unwrap()) {
        Err(ParseError::NotAnObject { path }) => assert_eq!(path, "<s>"),
        _ => panic!("expected the not-an-object error"),
    }
    // a crash record read back whole
    let crash = message_from_json(
        "<s>",
        parse_json(r#"{"kind":"crash","raw":"=CRASH REPORT x","path":"crash.log"}"#).unwrap(),
    )
    .unwrap();
    match crash {
        Message::Crash(cm) => {
            assert_eq!(cm.raw, "=CRASH REPORT x");
            assert_eq!(cm.path, "crash.log");
        }
        _ => panic!("crash variant"),
    }
}

#[test]
fn rows_sort_by_the_leftmost_column_first() {
    let mut rows = vec![
        vec!["b".to_string(), "1".to_string()],
        vec!["a".to_string(), "2".to_string()],
        vec!["a".to_string(), "1".to_string()],
        vec!["b".to_string(), "0".to_string()],
    ];
    sort_rows(&mut rows);
    assert_eq!(
        rows,
        vec![
            vec!["a".to_string(), "1".to_string()],
            vec!["a".to_string(), "2".to_string()],
            vec!["b".to_string(), "0".to_string()],
            vec!["b".to_string(), "1".to_string()],
        ]
    );
}

#[test]
fn the_cat_dispatch_names_a_parser_per_kind() {
    assert_eq!(CatCommand::parser_for(MessageKind::Crash), FileParser::CrashReport);
    assert_eq!(
        CatCommand::parser_for(MessageKind::AuthWebhookError),
        FileParser::Unsupported
    );
    assert_eq!(CatCommand::parser_for(MessageKind::Sora), FileParser::JsonLines);
}
