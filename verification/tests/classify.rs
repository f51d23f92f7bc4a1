use soralog::log_file::LogFileKind;
use soralog::message::MessageKind;

#[test]
fn classify_every_known_file_name() {
    let table = [
        ("api.jsonl", MessageKind::Api),
        ("auth_webhook.jsonl", MessageKind::AuthWebhook),
        ("auth_webhook_error.jsonl", MessageKind::AuthWebhookError),
        ("cluster.jsonl", MessageKind::Cluster),
        ("connection.jsonl", MessageKind::Connection),
        ("crash.log", MessageKind::Crash),
        ("debug.jsonl", MessageKind::Debug),
        ("event_webhook.jsonl", MessageKind::EventWebhook),
        ("event_webhook_error.jsonl", MessageKind::EventWebhookError),
        ("internal.jsonl", MessageKind::Internal),
        ("session_webhook.jsonl", MessageKind::SessionWebhook),
        ("session_webhook_error.jsonl", MessageKind::SessionWebhookError),
        ("signaling.jsonl", MessageKind::Signaling),
        ("sora.jsonl", MessageKind::Sora),
        ("stats_webhook.jsonl", MessageKind::StatsWebhook),
        ("stats_webhook_error.jsonl", MessageKind::StatsWebhookError),
    ];
    for (name, kind) in table {
        assert_eq!(MessageKind::from_path(name), Some(kind));
    }
}

#[test]
fn classify_uses_the_final_path_component() {
    assert_eq!(
        MessageKind::from_path("/var/log/sora/api.jsonl"),
        Some(MessageKind::Api)
    );
    assert_eq!(
        MessageKind::from_path("nested/dir/crash.log"),
        Some(MessageKind::Crash)
    );
    // trailing separators are ignored, as Path reads them
    assert_eq!(
        MessageKind::from_path("dir/api.jsonl/"),
        Some(MessageKind::Api)
    );
    assert_eq!(
        MessageKind::from_path("dir/cluster.jsonl//"),
        Some(MessageKind::Cluster)
    );
}

#[test]
fn classify_rejects_unknown_names() {
    assert_eq!(MessageKind::from_path("api.json"), None);
    assert_eq!(MessageKind::from_path("API.JSONL"), None);
    assert_eq!(MessageKind::from_path("other.jsonl"), None);
    assert_eq!(MessageKind::from_path(""), None);
    assert_eq!(MessageKind::from_path("/"), None);
    assert_eq!(MessageKind::from_path("xapi.jsonl"), None);
}

#[test]
fn file_kind_classification_matches_record_kinds() {
    assert_eq!(
        LogFileKind::from_path("a/cluster.jsonl"),
        Some(LogFileKind::Cluster)
    );
    assert_eq!(LogFileKind::from_path("a/unknown.txt"), None);
}

#[test]
fn kind_names_render_as_snake_case() {
    assert_eq!(MessageKind::AuthWebhookError.name(), "auth_webhook_error");
    assert_eq!(MessageKind::Sora.name(), "sora");
    assert_eq!(MessageKind::Crash.name(), "crash");
}
