//! The record model: log-source kinds, levels, field names, and the
//! polymorphic field value with its total textual ordering; the message
//! types of the individual schemas; and the parsers that turn one line of
//! log text into a message.

use vstd::prelude::*;
use vstd::string::*;
use core::cmp::Ordering;
use crate::json::Json;
use crate::json::JsonV;
use crate::text::lex_cmp_seq;
use crate::text::lex_cmp_chars;
use crate::text::str_chars;
use crate::text::str_eq;

verus! {

/// The kind of log source a record came from, one tag per known file name.
#[derive(Debug, Clone, Copy, PartialEq, Eq, Hash, PartialOrd, Ord, Structural)]
pub enum MessageKind {
    Api,
    AuthWebhook,
    AuthWebhookError,
    Cluster,
    Connection,
    Crash,
    Debug,
    EventWebhook,
    EventWebhookError,
    Internal,
    SessionWebhook,
    SessionWebhookError,
    Signaling,
    Sora,
    StatsWebhook,
    StatsWebhookError,
}

/// The position of a kind in the enumeration order.
pub open spec fn spec_kind_index(k: MessageKind) -> int {
    match k {
        MessageKind::Api => 0,
        MessageKind::AuthWebhook => 1,
        MessageKind::AuthWebhookError => 2,
        MessageKind::Cluster => 3,
        MessageKind::Connection => 4,
        MessageKind::Crash => 5,
        MessageKind::Debug => 6,
        MessageKind::EventWebhook => 7,
        MessageKind::EventWebhookError => 8,
        MessageKind::Internal => 9,
        MessageKind::SessionWebhook => 10,
        MessageKind::SessionWebhookError => 11,
        MessageKind::Signaling => 12,
        MessageKind::Sora => 13,
        MessageKind::StatsWebhook => 14,
        MessageKind::StatsWebhookError => 15,
    }
}

/// The name under which a kind appears in output.
pub open spec fn spec_kind_name(k: MessageKind) -> Seq<char> {
    match k {
        MessageKind::Api => "api"@,
        MessageKind::AuthWebhook => "auth_webhook"@,
        MessageKind::AuthWebhookError => "auth_webhook_error"@,
        MessageKind::Cluster => "cluster"@,
        MessageKind::Connection => "connection"@,
        MessageKind::Crash => "crash"@,
        MessageKind::Debug => "debug"@,
        MessageKind::EventWebhook => "event_webhook"@,
        MessageKind::EventWebhookError => "event_webhook_error"@,
        MessageKind::Internal => "internal"@,
        MessageKind::SessionWebhook => "session_webhook"@,
        MessageKind::SessionWebhookError => "session_webhook_error"@,
        MessageKind::Signaling => "signaling"@,
        MessageKind::Sora => "sora"@,
        MessageKind::StatsWebhook => "stats_webhook"@,
        MessageKind::StatsWebhookError => "stats_webhook_error"@,
    }
}

/// The file name that classifies to a kind.
pub open spec fn spec_kind_file_name(k: MessageKind) -> Seq<char> {
    match k {
        MessageKind::Api => "api.jsonl"@,
        MessageKind::AuthWebhook => "auth_webhook.jsonl"@,
        MessageKind::AuthWebhookError => "auth_webhook_error.jsonl"@,
        MessageKind::Cluster => "cluster.jsonl"@,
        MessageKind::Connection => "connection.jsonl"@,
        MessageKind::Crash => "crash.log"@,
        MessageKind::Debug => "debug.jsonl"@,
        MessageKind::EventWebhook => "event_webhook.jsonl"@,
        MessageKind::EventWebhookError => "event_webhook_error.jsonl"@,
        MessageKind::Internal => "internal.jsonl"@,
        MessageKind::SessionWebhook => "session_webhook.jsonl"@,
        MessageKind::SessionWebhookError => "session_webhook_error.jsonl"@,
        MessageKind::Signaling => "signaling.jsonl"@,
        MessageKind::Sora => "sora.jsonl"@,
        MessageKind::StatsWebhook => "stats_webhook.jsonl"@,
        MessageKind::StatsWebhookError => "stats_webhook_error.jsonl"@,
    }
}

/// The kind a bare file name classifies to, if any: an exact, case-sensitive
/// match against the fixed table.
pub open spec fn spec_classify(name: Seq<char>) -> Option<MessageKind> {
    if name == "api.jsonl"@ {
        Some(MessageKind::Api)
    } else if name == "auth_webhook.jsonl"@ {
        Some(MessageKind::AuthWebhook)
    } else if name == "auth_webhook_error.jsonl"@ {
        Some(MessageKind::AuthWebhookError)
    } else if name == "cluster.jsonl"@ {
        Some(MessageKind::Cluster)
    } else if name == "connection.jsonl"@ {
        Some(MessageKind::Connection)
    } else if name == "crash.log"@ {
        Some(MessageKind::Crash)
    } else if name == "debug.jsonl"@ {
        Some(MessageKind::Debug)
    } else if name == "event_webhook.jsonl"@ {
        Some(MessageKind::EventWebhook)
    } else if name == "event_webhook_error.jsonl"@ {
        Some(MessageKind::EventWebhookError)
    } else if name == "internal.jsonl"@ {
        Some(MessageKind::Internal)
    } else if name == "session_webhook.jsonl"@ {
        Some(MessageKind::SessionWebhook)
    } else if name == "session_webhook_error.jsonl"@ {
        Some(MessageKind::SessionWebhookError)
    } else if name == "signaling.jsonl"@ {
        Some(MessageKind::Signaling)
    } else if name == "sora.jsonl"@ {
        Some(MessageKind::Sora)
    } else if name == "stats_webhook.jsonl"@ {
        Some(MessageKind::StatsWebhook)
    } else if name == "stats_webhook_error.jsonl"@ {
        Some(MessageKind::StatsWebhookError)
    } else {
        None
    }
}

/// The path with its trailing `/` separators removed, as `Path` reads a
/// path that ends in one.
pub open spec fn spec_trim_slashes(p: Seq<char>) -> Seq<char>
    decreases p.len(),
{
    if p.len() > 0 && p[p.len() - 1] == '/' {
        spec_trim_slashes(p.drop_last())
    } else {
        p
    }
}

/// Everything after the last `/` of a path that does not end in one.
pub open spec fn spec_last_component(p: Seq<char>) -> Seq<char>
    decreases p.len(),
{
    if p.len() == 0 {
        p
    } else if p[p.len() - 1] == '/' {
        Seq::empty()
    } else {
        spec_last_component(p.take(p.len() - 1)).push(p[p.len() - 1])
    }
}

/// The final component of a path: everything after the last `/`, with
/// trailing separators ignored first.
pub open spec fn spec_file_name(p: Seq<char>) -> Seq<char> {
    spec_last_component(spec_trim_slashes(p))
}

proof fn lemma_trim_slashes_take(p: Seq<char>, e: int)
    requires
        0 <= e <= p.len(),
        forall|j: int| e <= j < p.len() ==> p[j] == '/',
        e > 0 ==> p[e - 1] != '/',
    ensures
        spec_trim_slashes(p) == p.take(e),
    decreases p.len(),
{
    if e == p.len() {
        assert(p.take(e) =~= p);
    } else {
        assert(p[p.len() - 1] == '/');
        assert(p.drop_last() =~= p.take(p.len() - 1));
        lemma_trim_slashes_take(p.take(p.len() - 1), e);
        assert(p.take(p.len() - 1).take(e) =~= p.take(e));
    }
}

/// Classification is total on the fixed table: every known file name
/// classifies to its kind, and `spec_classify` answers `None` on every
/// other name by its final branch.
pub proof fn lemma_classification_total(k: MessageKind)
    ensures
        spec_classify(spec_kind_file_name(k)) == Some(k),
{
    reveal_strlit("api.jsonl");
    reveal_strlit("auth_webhook.jsonl");
    reveal_strlit("auth_webhook_error.jsonl");
    reveal_strlit("cluster.jsonl");
    reveal_strlit("connection.jsonl");
    reveal_strlit("crash.log");
    reveal_strlit("debug.jsonl");
    reveal_strlit("event_webhook.jsonl");
    reveal_strlit("event_webhook_error.jsonl");
    reveal_strlit("internal.jsonl");
    reveal_strlit("session_webhook.jsonl");
    reveal_strlit("session_webhook_error.jsonl");
    reveal_strlit("signaling.jsonl");
    reveal_strlit("sora.jsonl");
    reveal_strlit("stats_webhook.jsonl");
    reveal_strlit("stats_webhook_error.jsonl");
    assert(("api.jsonl"@).len() == 9);
    assert(("auth_webhook.jsonl"@).len() == 18);
    assert(("auth_webhook_error.jsonl"@).len() == 24);
    assert(("cluster.jsonl"@).len() == 13);
    assert(("connection.jsonl"@).len() == 16);
    assert(("crash.log"@).len() == 9);
    assert(("debug.jsonl"@).len() == 11);
    assert(("event_webhook.jsonl"@).len() == 19);
    assert(("event_webhook_error.jsonl"@).len() == 25);
    assert(("internal.jsonl"@).len() == 14);
    assert(("session_webhook.jsonl"@).len() == 21);
    assert(("session_webhook_error.jsonl"@).len() == 27);
    assert(("signaling.jsonl"@).len() == 15);
    assert(("sora.jsonl"@).len() == 10);
    assert(("stats_webhook.jsonl"@).len() == 19);
    assert(("stats_webhook_error.jsonl"@).len() == 25);
    assert(("api.jsonl"@)[0] == 'a');
    assert(("crash.log"@)[0] == 'c');
    assert(("event_webhook.jsonl"@)[0] == 'e');
    assert(("stats_webhook.jsonl"@)[0] == 's');
    assert(("event_webhook_error.jsonl"@)[0] == 'e');
    assert(("stats_webhook_error.jsonl"@)[0] == 's');
    match k {
        MessageKind::Api => {},
        MessageKind::AuthWebhook => {},
        MessageKind::AuthWebhookError => {},
        MessageKind::Cluster => {},
        MessageKind::Connection => {},
        MessageKind::Crash => {},
        MessageKind::Debug => {},
        MessageKind::EventWebhook => {},
        MessageKind::EventWebhookError => {},
        MessageKind::Internal => {},
        MessageKind::SessionWebhook => {},
        MessageKind::SessionWebhookError => {},
        MessageKind::Signaling => {},
        MessageKind::Sora => {},
        MessageKind::StatsWebhook => {},
        MessageKind::StatsWebhookError => {},
    }
}

proof fn lemma_file_name_skip(p: Seq<char>, k: int)
    requires
        0 <= k <= p.len(),
        forall|j: int| k <= j < p.len() ==> p[j] != '/',
        k > 0 ==> p[k - 1] == '/',
    ensures
        spec_last_component(p) == p.skip(k),
    decreases p.len(),
{
    if p.len() == 0 {
        assert(p.skip(0) =~= p);
    } else if k == p.len() {
        assert(p[k - 1] == '/');
        assert(p.skip(k) =~= Seq::<char>::empty());
    } else {
        assert(p[p.len() - 1] != '/');
        lemma_file_name_skip(p.take(p.len() - 1), k);
        assert(p.take(p.len() - 1).skip(k).push(p[p.len() - 1]) =~= p.skip(k));
    }
}

impl MessageKind {
    /// Classifies a path by its file name against the fixed table; any
    /// other name yields `None`.
    pub fn from_path(path: &str) -> (r: Option<MessageKind>)
        ensures
            r == spec_classify(spec_file_name(path@)),
    {
        let cs = str_chars(path);
        let n = cs.len();
        let mut e: usize = n;
        while e > 0 && cs[e - 1] == '/'
            invariant
                e <= n,
                n == path@.len(),
                cs@ == path@,
                forall|j: int| e <= j < n ==> path@[j] == '/',
            decreases e,
        {
            e = e - 1;
        }
        proof {
            lemma_trim_slashes_take(path@, e as int);
        }
        let ghost pt = path@.take(e as int);
        let mut k: usize = e;
        while k > 0 && cs[k - 1] != '/'
            invariant
                k <= e,
                e <= n,
                n == path@.len(),
                cs@ == path@,
                forall|j: int| k <= j < e ==> path@[j] != '/',
            decreases k,
        {
            k = k - 1;
        }
        proof {
            assert(forall|j: int| k <= j < pt.len() ==> pt[j] == path@[j]);
            if k > 0 {
                assert(pt[k - 1] == path@[k as int - 1]);
            }
            lemma_file_name_skip(pt, k as int);
        }
        let name = path.substring_char(k, e);
        proof {
            assert(name@ =~= pt.skip(k as int));
        }
        Self::classify_name(name)
    }

    /// Looks a bare file name up in the fixed table.
    pub fn classify_name(name: &str) -> (r: Option<MessageKind>)
        ensures
            r == spec_classify(name@),
    {
        if str_eq(name, "api.jsonl") {
            Some(MessageKind::Api)
        } else if str_eq(name, "auth_webhook.jsonl") {
            Some(MessageKind::AuthWebhook)
        } else if str_eq(name, "auth_webhook_error.jsonl") {
            Some(MessageKind::AuthWebhookError)
        } else if str_eq(name, "cluster.jsonl") {
            Some(MessageKind::Cluster)
        } else if str_eq(name, "connection.jsonl") {
            Some(MessageKind::Connection)
        } else if str_eq(name, "crash.log") {
            Some(MessageKind::Crash)
        } else if str_eq(name, "debug.jsonl") {
            Some(MessageKind::Debug)
        } else if str_eq(name, "event_webhook.jsonl") {
            Some(MessageKind::EventWebhook)
        } else if str_eq(name, "event_webhook_error.jsonl") {
            Some(MessageKind::EventWebhookError)
        } else if str_eq(name, "internal.jsonl") {
            Some(MessageKind::Internal)
        } else if str_eq(name, "session_webhook.jsonl") {
            Some(MessageKind::SessionWebhook)
        } else if str_eq(name, "session_webhook_error.jsonl") {
            Some(MessageKind::SessionWebhookError)
        } else if str_eq(name, "signaling.jsonl") {
            Some(MessageKind::Signaling)
        } else if str_eq(name, "sora.jsonl") {
            Some(MessageKind::Sora)
        } else if str_eq(name, "stats_webhook.jsonl") {
            Some(MessageKind::StatsWebhook)
        } else if str_eq(name, "stats_webhook_error.jsonl") {
            Some(MessageKind::StatsWebhookError)
        } else {
            None
        }
    }

    /// The kind's output name.
    pub fn name(&self) -> (s: String)
        ensures
            s@ == spec_kind_name(*self),
    {
        match self {
            MessageKind::Api => String::from_str("api"),
            MessageKind::AuthWebhook => String::from_str("auth_webhook"),
            MessageKind::AuthWebhookError => String::from_str("auth_webhook_error"),
            MessageKind::Cluster => String::from_str("cluster"),
            MessageKind::Connection => String::from_str("connection"),
            MessageKind::Crash => String::from_str("crash"),
            MessageKind::Debug => String::from_str("debug"),
            MessageKind::EventWebhook => String::from_str("event_webhook"),
            MessageKind::EventWebhookError => String::from_str("event_webhook_error"),
            MessageKind::Internal => String::from_str("internal"),
            MessageKind::SessionWebhook => String::from_str("session_webhook"),
            MessageKind::SessionWebhookError => String::from_str("session_webhook_error"),
            MessageKind::Signaling => String::from_str("signaling"),
            MessageKind::Sora => String::from_str("sora"),
            MessageKind::StatsWebhook => String::from_str("stats_webhook"),
            MessageKind::StatsWebhookError => String::from_str("stats_webhook_error"),
        }
    }

    /// The kind's position in the enumeration order.
    pub fn index(&self) -> (i: u32)
        ensures
            i as int == spec_kind_index(*self),
    {
        match self {
            MessageKind::Api => 0,
            MessageKind::AuthWebhook => 1,
            MessageKind::AuthWebhookError => 2,
            MessageKind::Cluster => 3,
            MessageKind::Connection => 4,
            MessageKind::Crash => 5,
            MessageKind::Debug => 6,
            MessageKind::EventWebhook => 7,
            MessageKind::EventWebhookError => 8,
            MessageKind::Internal => 9,
            MessageKind::SessionWebhook => 10,
            MessageKind::SessionWebhookError => 11,
            MessageKind::Signaling => 12,
            MessageKind::Sora => 13,
            MessageKind::StatsWebhook => 14,
            MessageKind::StatsWebhookError => 15,
        }
    }
}

/// The severity of a log record, ordered from `Debug` up to `Emergency`.
#[derive(Debug, Clone, Copy, PartialEq, Eq, Hash, PartialOrd, Ord, Structural)]
pub enum LogLevel {
    Debug,
    Info,
    Notice,
    Warning,
    Error,
    Emergency,
}

/// The position of a level in the severity order.
pub open spec fn spec_level_index(l: LogLevel) -> int {
    match l {
        LogLevel::Debug => 0,
        LogLevel::Info => 1,
        LogLevel::Notice => 2,
        LogLevel::Warning => 3,
        LogLevel::Error => 4,
        LogLevel::Emergency => 5,
    }
}

/// The name under which a level appears in logs and output.
pub open spec fn spec_level_name(l: LogLevel) -> Seq<char> {
    match l {
        LogLevel::Debug => "debug"@,
        LogLevel::Info => "info"@,
        LogLevel::Notice => "notice"@,
        LogLevel::Warning => "warning"@,
        LogLevel::Error => "error"@,
        LogLevel::Emergency => "emergency"@,
    }
}

/// The level a name denotes, if any.
pub open spec fn spec_parse_level(s: Seq<char>) -> Option<LogLevel> {
    if s == "debug"@ {
        Some(LogLevel::Debug)
    } else if s == "info"@ {
        Some(LogLevel::Info)
    } else if s == "notice"@ {
        Some(LogLevel::Notice)
    } else if s == "warning"@ {
        Some(LogLevel::Warning)
    } else if s == "error"@ {
        Some(LogLevel::Error)
    } else if s == "emergency"@ {
        Some(LogLevel::Emergency)
    } else {
        None
    }
}

impl LogLevel {
    /// The level's output name.
    pub fn name(&self) -> (s: String)
        ensures
            s@ == spec_level_name(*self),
    {
        match self {
            LogLevel::Debug => String::from_str("debug"),
            LogLevel::Info => String::from_str("info"),
            LogLevel::Notice => String::from_str("notice"),
            LogLevel::Warning => String::from_str("warning"),
            LogLevel::Error => String::from_str("error"),
            LogLevel::Emergency => String::from_str("emergency"),
        }
    }

    /// The level's position in the severity order.
    pub fn index(&self) -> (i: u32)
        ensures
            i as int == spec_level_index(*self),
    {
        match self {
            LogLevel::Debug => 0,
            LogLevel::Info => 1,
            LogLevel::Notice => 2,
            LogLevel::Warning => 3,
            LogLevel::Error => 4,
            LogLevel::Emergency => 5,
        }
    }

    /// Reads a level from its name.
    pub fn parse(s: &str) -> (r: Option<LogLevel>)
        ensures
            r == spec_parse_level(s@),
    {
        if str_eq(s, "debug") {
            Some(LogLevel::Debug)
        } else if str_eq(s, "info") {
            Some(LogLevel::Info)
        } else if str_eq(s, "notice") {
            Some(LogLevel::Notice)
        } else if str_eq(s, "warning") {
            Some(LogLevel::Warning)
        } else if str_eq(s, "error") {
            Some(LogLevel::Error)
        } else if str_eq(s, "emergency") {
            Some(LogLevel::Emergency)
        } else {
            None
        }
    }
}

/// A record's timestamp, kept as the text the log carried.
#[derive(Debug, Clone, PartialEq, Eq, PartialOrd, Ord, Hash)]
pub struct Timestamp(pub String);

/// The closed set of queryable field identifiers.
#[derive(Debug, Clone, Copy, PartialEq, Eq, Hash, Structural)]
pub enum FieldName {
    Kind,
    Level,
    Timestamp,
    Operation,
    Json,
    Path,
    Msg,
    MsgTag,
    Url,
    Req,
    Res,
}

/// The canonical string key of a field.
pub open spec fn spec_field_key(f: FieldName) -> Seq<char> {
    match f {
        FieldName::Kind => "kind"@,
        FieldName::Level => "level"@,
        FieldName::Timestamp => "timestamp"@,
        FieldName::Operation => "operation"@,
        FieldName::Json => "json"@,
        FieldName::Path => "path"@,
        FieldName::Msg => "msg"@,
        FieldName::MsgTag => "msg.tag"@,
        FieldName::Url => "url"@,
        FieldName::Req => "req"@,
        FieldName::Res => "res"@,
    }
}

/// The field a key denotes, if any.
pub open spec fn spec_parse_field(s: Seq<char>) -> Option<FieldName> {
    if s == "kind"@ {
        Some(FieldName::Kind)
    } else if s == "level"@ {
        Some(FieldName::Level)
    } else if s == "timestamp"@ {
        Some(FieldName::Timestamp)
    } else if s == "operation"@ {
        Some(FieldName::Operation)
    } else if s == "json"@ {
        Some(FieldName::Json)
    } else if s == "path"@ {
        Some(FieldName::Path)
    } else if s == "msg"@ {
        Some(FieldName::Msg)
    } else if s == "msg.tag"@ {
        Some(FieldName::MsgTag)
    } else if s == "url"@ {
        Some(FieldName::Url)
    } else if s == "req"@ {
        Some(FieldName::Req)
    } else if s == "res"@ {
        Some(FieldName::Res)
    } else {
        None
    }
}

impl FieldName {
    /// The field's canonical string key.
    pub fn key(&self) -> (s: String)
        ensures
            s@ == spec_field_key(*self),
    {
        match self {
            FieldName::Kind => String::from_str("kind"),
            FieldName::Level => String::from_str("level"),
            FieldName::Timestamp => String::from_str("timestamp"),
            FieldName::Operation => String::from_str("operation"),
            FieldName::Json => String::from_str("json"),
            FieldName::Path => String::from_str("path"),
            FieldName::Msg => String::from_str("msg"),
            FieldName::MsgTag => String::from_str("msg.tag"),
            FieldName::Url => String::from_str("url"),
            FieldName::Req => String::from_str("req"),
            FieldName::Res => String::from_str("res"),
        }
    }

    /// Reads a field from its canonical key.
    pub fn parse(s: &str) -> (r: Option<FieldName>)
        ensures
            r == spec_parse_field(s@),
    {
        if str_eq(s, "kind") {
            Some(FieldName::Kind)
        } else if str_eq(s, "level") {
            Some(FieldName::Level)
        } else if str_eq(s, "timestamp") {
            Some(FieldName::Timestamp)
        } else if str_eq(s, "operation") {
            Some(FieldName::Operation)
        } else if str_eq(s, "json") {
            Some(FieldName::Json)
        } else if str_eq(s, "path") {
            Some(FieldName::Path)
        } else if str_eq(s, "msg") {
            Some(FieldName::Msg)
        } else if str_eq(s, "msg.tag") {
            Some(FieldName::MsgTag)
        } else if str_eq(s, "url") {
            Some(FieldName::Url)
        } else if str_eq(s, "req") {
            Some(FieldName::Req)
        } else if str_eq(s, "res") {
            Some(FieldName::Res)
        } else {
            None
        }
    }
}

/// A field's value: a string, an enumerated kind or level, a JSON value,
/// or a filesystem path.
#[derive(Debug)]
pub enum FieldValue {
    String(String),
    Kind(MessageKind),
    Level(LogLevel),
    Json(Json),
    Path(String),
}

/// The mathematical shape of a field value.
#[verifier::ext_equal]
pub enum FieldValueV {
    String(Seq<char>),
    Kind(MessageKind),
    Level(LogLevel),
    Json(JsonV),
    Path(Seq<char>),
}

impl View for FieldValue {
    type V = FieldValueV;

    open spec fn view(&self) -> FieldValueV {
        match self {
            FieldValue::String(s) => FieldValueV::String(s@),
            FieldValue::Kind(k) => FieldValueV::Kind(*k),
            FieldValue::Level(l) => FieldValueV::Level(*l),
            FieldValue::Json(j) => FieldValueV::Json(j@),
            FieldValue::Path(p) => FieldValueV::Path(p@),
        }
    }
}

/// The textual rendering of a field value, as `Display` would print it.
pub open spec fn spec_render(v: FieldValueV) -> Seq<char> {
    match v {
        FieldValueV::String(s) => s,
        FieldValueV::Kind(k) => spec_kind_name(k),
        FieldValueV::Level(l) => spec_level_name(l),
        FieldValueV::Json(j) => crate::json::spec_json_text(j),
        FieldValueV::Path(p) => p,
    }
}

/// Compares two field values: same-tagged values by their natural order,
/// differently shaped values by their textual rendering.
pub open spec fn spec_fv_cmp(a: FieldValueV, b: FieldValueV) -> Ordering {
    match (a, b) {
        (FieldValueV::String(x), FieldValueV::String(y)) => lex_cmp_seq(x, y),
        (FieldValueV::Kind(x), FieldValueV::Kind(y)) => int_cmp(
            spec_kind_index(x),
            spec_kind_index(y),
        ),
        (FieldValueV::Level(x), FieldValueV::Level(y)) => int_cmp(
            spec_level_index(x),
            spec_level_index(y),
        ),
        (FieldValueV::Path(x), FieldValueV::Path(y)) => lex_cmp_seq(x, y),
        _ => lex_cmp_seq(spec_render(a), spec_render(b)),
    }
}

/// The order of two integers.
pub open spec fn int_cmp(a: int, b: int) -> Ordering {
    if a < b {
        Ordering::Less
    } else if a > b {
        Ordering::Greater
    } else {
        Ordering::Equal
    }
}

/// A field value as the JSON value it serializes to.
pub open spec fn spec_fv_json(v: FieldValueV) -> JsonV {
    match v {
        FieldValueV::String(s) => JsonV::Text(s),
        FieldValueV::Kind(k) => JsonV::Text(spec_kind_name(k)),
        FieldValueV::Level(l) => JsonV::Text(spec_level_name(l)),
        FieldValueV::Json(j) => j,
        FieldValueV::Path(p) => JsonV::Text(p),
    }
}

impl FieldValue {
    /// The value as a JSON value, for re-serialization.
    pub fn to_json_value(&self) -> (r: Json)
        ensures
            r@ == spec_fv_json(self@),
    {
        match self {
            FieldValue::String(s) => Json::Text(s.clone()),
            FieldValue::Kind(k) => Json::Text(k.name()),
            FieldValue::Level(l) => Json::Text(l.name()),
            FieldValue::Json(j) => crate::json::clone_json(j),
            FieldValue::Path(p) => Json::Text(p.clone()),
        }
    }

    /// The value's textual rendering.
    pub fn render(&self) -> (s: String)
        ensures
            s@ == spec_render(self@),
    {
        match self {
            FieldValue::String(s) => s.clone(),
            FieldValue::Kind(k) => k.name(),
            FieldValue::Level(l) => l.name(),
            FieldValue::Json(j) => crate::json::json_text(j),
            FieldValue::Path(p) => p.clone(),
        }
    }

    /// Compares two field values by the order `spec_fv_cmp` describes.
    pub fn compare(&self, other: &FieldValue) -> (o: Ordering)
        ensures
            o == spec_fv_cmp(self@, other@),
    {
        match (self, other) {
            (FieldValue::String(x), FieldValue::String(y)) => {
                let cx = str_chars(x.as_str());
                let cy = str_chars(y.as_str());
                lex_cmp_chars(&cx, &cy)
            },
            (FieldValue::Kind(x), FieldValue::Kind(y)) => {
                let ix = x.index();
                let iy = y.index();
                if ix < iy {
                    Ordering::Less
                } else if ix > iy {
                    Ordering::Greater
                } else {
                    Ordering::Equal
                }
            },
            (FieldValue::Level(x), FieldValue::Level(y)) => {
                let ix = x.index();
                let iy = y.index();
                if ix < iy {
                    Ordering::Less
                } else if ix > iy {
                    Ordering::Greater
                } else {
                    Ordering::Equal
                }
            },
            (FieldValue::Path(x), FieldValue::Path(y)) => {
                let cx = str_chars(x.as_str());
                let cy = str_chars(y.as_str());
                lex_cmp_chars(&cx, &cy)
            },
            _ => {
                let rx = self.render();
                let ry = other.render();
                let cx = str_chars(rx.as_str());
                let cy = str_chars(ry.as_str());
                lex_cmp_chars(&cx, &cy)
            },
        }
    }
}

/// A character allowed in a message tag: uppercase ASCII, digit, or hyphen.
pub open spec fn spec_is_tag_char(c: char) -> bool {
    c == '-' || (0x41 <= (c as u32) && (c as u32) <= 0x5a) || (0x30 <= (c as u32) && (c as u32)
        <= 0x39)
}

/// The tag of a message: the trimmed text before the first `|`, provided
/// it consists of tag characters alone; absent when the message has no
/// `|` or the prefix carries any other character.
pub open spec fn spec_tag(msg: Seq<char>) -> Option<Seq<char>> {
    match crate::text::spec_find_from(msg, seq!['|'], 0) {
        Some(i) => {
            let t = crate::text::trim_seq(msg.take(i));
            if forall|j: int| 0 <= j < t.len() ==> spec_is_tag_char(#[trigger] t[j]) {
                Some(t)
            } else {
                None
            }
        },
        None => None,
    }
}

/// Extracts the tag before the first `|` of a message, if it is one.
#[verifier::loop_isolation(false)]
pub fn get_message_tag(msg: &str) -> (r: Option<String>)
    ensures
        match r {
            Some(s) => spec_tag(msg@) == Some(s@),
            None => spec_tag(msg@) is None,
        },
{
    let cs = str_chars(msg);
    let mut pat: Vec<char> = Vec::new();
    pat.push('|');
    proof {
        assert(pat@ =~= seq!['|']);
    }
    let bar = crate::text::find_from(&cs, &pat, 0);
    match bar {
        None => None,
        Some(i) => {
            proof {
                crate::text::lemma_find_from_found(msg@, seq!['|'], 0);
            }
            let mut pre: Vec<char> = Vec::new();
            let mut j: usize = 0;
            while j < i
                invariant
                    j <= i,
                    i <= cs.len(),
                    cs@ == msg@,
                    pre@ == msg@.subrange(0, j as int),
                decreases i - j,
            {
                pre.push(cs[j]);
                assert(pre@ =~= msg@.subrange(0, j + 1));
                j = j + 1;
            }
            proof {
                assert(pre@ =~= msg@.take(i as int));
            }
            let t = crate::text::trim_chars(&pre);
            let mut k: usize = 0;
            while k < t.len()
                invariant
                    k <= t.len(),
                    t@ == crate::text::trim_seq(msg@.take(i as int)),
                    forall|q: int| 0 <= q < k ==> spec_is_tag_char(#[trigger] t@[q]),
                decreases t.len() - k,
            {
                let c = t[k];
                let u = c as u32;
                if !(c == '-' || (0x41 <= u && u <= 0x5a) || (0x30 <= u && u <= 0x39)) {
                    proof {
                        assert(!spec_is_tag_char(t@[k as int]));
                    }
                    return None;
                }
                k = k + 1;
            }
            Some(crate::text::chars_to_string(&t))
        },
    }
}

/// A record of a schema this library does not model with named fields: the
/// full key set of the line, plus the originating path once injected.
#[derive(Debug)]
pub struct JsonlMessage {
    pub path: Option<String>,
    pub fields: Vec<(String, Json)>,
}

/// One entry of the API log.
#[derive(Debug)]
pub struct ApiMessage {
    pub timestamp: Timestamp,
    pub operation: String,
    pub json: Json,
    pub path: Option<String>,
}

/// One entry of the authentication webhook log.
#[derive(Debug)]
pub struct AuthWebhookMessage {
    pub id: String,
    pub timestamp: Timestamp,
    pub url: Option<String>,
    pub req: Json,
    pub res: Option<Json>,
    pub path: Option<String>,
}

/// One entry of the connection log.
#[derive(Debug)]
pub struct ConnectionMessage {
    pub timestamp: Timestamp,
    pub created_timestamp: Timestamp,
    pub destroyed_timestamp: Timestamp,
    pub channel_id: String,
    pub session_id: String,
    pub client_id: String,
    pub bundle_id: String,
    pub connection_id: String,
    pub role: String,
    pub turn_transport_type: String,
    pub simulcast: bool,
    pub spotlight: bool,
    pub multistream: bool,
    pub data_channel_signaling: bool,
    pub ignore_disconnect_websocket: bool,
    pub recording_block: bool,
    pub stats_exporter: bool,
    pub e2ee: bool,
    pub destroyed_reason: String,
    pub disconnect_api_reason: Option<Json>,
    pub data_channel_exit_reason: Option<String>,
    pub signaling_terminate_reason: String,
    pub audio: Json,
    pub video: Json,
    pub sora_client: Json,
    pub local_stats: Json,
    pub path: Option<String>,
}

/// One entry of the cluster log.
#[derive(Debug)]
pub struct ClusterMessage {
    pub id: String,
    pub level: LogLevel,
    pub msg: String,
    pub domain: Vec<String>,
    pub sora_version: String,
    pub node: String,
    pub timestamp: Timestamp,
    pub testcase: Option<String>,
    pub path: Option<String>,
}

/// One crash report, kept as raw text.
#[derive(Debug)]
pub struct CrashMessage {
    pub raw: String,
    pub path: String,
}

/// The view of an optional field value.
pub open spec fn fv_opt_view(r: Option<FieldValue>) -> Option<FieldValueV> {
    match r {
        Some(v) => Some(v@),
        None => None,
    }
}

/// The view of an optional string.
pub open spec fn str_opt_view(r: Option<String>) -> Option<Seq<char>> {
    match r {
        Some(s) => Some(s@),
        None => None,
    }
}

/// What the API schema answers for each field.
pub open spec fn spec_api_field(m: ApiMessage, f: FieldName) -> Option<FieldValueV> {
    match f {
        FieldName::Kind => Some(FieldValueV::Kind(MessageKind::Api)),
        FieldName::Timestamp => Some(FieldValueV::String(m.timestamp.0@)),
        FieldName::Operation => Some(FieldValueV::String(m.operation@)),
        FieldName::Json => Some(FieldValueV::Json(m.json@)),
        FieldName::Path => match m.path {
            Some(p) => Some(FieldValueV::Path(p@)),
            None => None,
        },
        _ => None,
    }
}

impl ApiMessage {
    pub fn get_field_value(&self, field_name: FieldName) -> (r: Option<FieldValue>)
        ensures
            fv_opt_view(r) == spec_api_field(*self, field_name),
    {
        match field_name {
            FieldName::Kind => Some(FieldValue::Kind(MessageKind::Api)),
            FieldName::Timestamp => Some(FieldValue::String(self.timestamp.0.clone())),
            FieldName::Operation => Some(FieldValue::String(self.operation.clone())),
            FieldName::Json => Some(FieldValue::Json(crate::json::clone_json(&self.json))),
            FieldName::Path => match &self.path {
                Some(p) => Some(FieldValue::Path(p.clone())),
                None => None,
            },
            _ => None,
        }
    }
}

/// What the authentication webhook schema answers for each field.
pub open spec fn spec_auth_webhook_field(m: AuthWebhookMessage, f: FieldName) -> Option<
    FieldValueV,
> {
    match f {
        FieldName::Kind => Some(FieldValueV::Kind(MessageKind::AuthWebhook)),
        FieldName::Timestamp => Some(FieldValueV::String(m.timestamp.0@)),
        FieldName::Path => match m.path {
            Some(p) => Some(FieldValueV::Path(p@)),
            None => None,
        },
        FieldName::Url => match m.url {
            Some(u) => Some(FieldValueV::String(u@)),
            None => None,
        },
        FieldName::Req => Some(FieldValueV::Json(m.req@)),
        FieldName::Res => match m.res {
            Some(v) => Some(FieldValueV::Json(v@)),
            None => None,
        },
        _ => None,
    }
}

impl AuthWebhookMessage {
    pub fn get_field_value(&self, field_name: FieldName) -> (r: Option<FieldValue>)
        ensures
            fv_opt_view(r) == spec_auth_webhook_field(*self, field_name),
    {
        match field_name {
            FieldName::Kind => Some(FieldValue::Kind(MessageKind::AuthWebhook)),
            FieldName::Timestamp => Some(FieldValue::String(self.timestamp.0.clone())),
            FieldName::Path => match &self.path {
                Some(p) => Some(FieldValue::Path(p.clone())),
                None => None,
            },
            FieldName::Url => match &self.url {
                Some(u) => Some(FieldValue::String(u.clone())),
                None => None,
            },
            FieldName::Req => Some(FieldValue::Json(crate::json::clone_json(&self.req))),
            FieldName::Res => match &self.res {
                Some(v) => Some(FieldValue::Json(crate::json::clone_json(v))),
                None => None,
            },
            _ => None,
        }
    }
}

/// What the connection schema answers for each field.
pub open spec fn spec_connection_field(m: ConnectionMessage, f: FieldName) -> Option<FieldValueV> {
    match f {
        FieldName::Kind => Some(FieldValueV::Kind(MessageKind::Connection)),
        FieldName::Timestamp => Some(FieldValueV::String(m.timestamp.0@)),
        FieldName::Path => match m.path {
            Some(p) => Some(FieldValueV::Path(p@)),
            None => None,
        },
        _ => None,
    }
}

impl ConnectionMessage {
    pub fn get_field_value(&self, field_name: FieldName) -> (r: Option<FieldValue>)
        ensures
            fv_opt_view(r) == spec_connection_field(*self, field_name),
    {
        match field_name {
            FieldName::Kind => Some(FieldValue::Kind(MessageKind::Connection)),
            FieldName::Timestamp => Some(FieldValue::String(self.timestamp.0.clone())),
            FieldName::Path => match &self.path {
                Some(p) => Some(FieldValue::Path(p.clone())),
                None => None,
            },
            _ => None,
        }
    }
}

/// What the cluster schema answers for each field.
pub open spec fn spec_cluster_field(m: ClusterMessage, f: FieldName) -> Option<FieldValueV> {
    match f {
        FieldName::Kind => Some(FieldValueV::Kind(MessageKind::Cluster)),
        FieldName::Level => Some(FieldValueV::Level(m.level)),
        FieldName::Timestamp => Some(FieldValueV::String(m.timestamp.0@)),
        FieldName::Msg => Some(FieldValueV::String(m.msg@)),
        FieldName::MsgTag => match spec_tag(m.msg@) {
            Some(t) => Some(FieldValueV::String(t)),
            None => None,
        },
        FieldName::Path => match m.path {
            Some(p) => Some(FieldValueV::Path(p@)),
            None => None,
        },
        _ => None,
    }
}

impl ClusterMessage {
    pub fn get_field_value(&self, field_name: FieldName) -> (r: Option<FieldValue>)
        ensures
            fv_opt_view(r) == spec_cluster_field(*self, field_name),
    {
        match field_name {
            FieldName::Kind => Some(FieldValue::Kind(MessageKind::Cluster)),
            FieldName::Level => Some(FieldValue::Level(self.level)),
            FieldName::Timestamp => Some(FieldValue::String(self.timestamp.0.clone())),
            FieldName::Msg => Some(FieldValue::String(self.msg.clone())),
            FieldName::MsgTag => match get_message_tag(self.msg.as_str()) {
                Some(t) => Some(FieldValue::String(t)),
                None => None,
            },
            FieldName::Path => match &self.path {
                Some(p) => Some(FieldValue::Path(p.clone())),
                None => None,
            },
            _ => None,
        }
    }
}

/// What a crash record answers: only its kind and its path.
pub open spec fn spec_crash_field(m: CrashMessage, f: FieldName) -> Option<FieldValueV> {
    match f {
        FieldName::Kind => Some(FieldValueV::Kind(MessageKind::Crash)),
        FieldName::Path => Some(FieldValueV::Path(m.path@)),
        _ => None,
    }
}

impl CrashMessage {
    pub fn get_field_value(&self, field_name: FieldName) -> (r: Option<FieldValue>)
        ensures
            fv_opt_view(r) == spec_crash_field(*self, field_name),
    {
        match field_name {
            FieldName::Kind => Some(FieldValue::Kind(MessageKind::Crash)),
            FieldName::Path => Some(FieldValue::Path(self.path.clone())),
            _ => None,
        }
    }
}

/// What a generic record answers: the field's canonical key is looked up
/// in the record's key set and the JSON shape is classified into the
/// matching value tag.
pub open spec fn spec_jsonl_field(m: JsonlMessage, kind: MessageKind, f: FieldName) -> Option<
    FieldValueV,
> {
    let mv = crate::json::json_map_view(m.fields@);
    match f {
        FieldName::Kind => Some(FieldValueV::Kind(kind)),
        FieldName::Path => match m.path {
            Some(p) => Some(FieldValueV::Path(p@)),
            None => None,
        },
        FieldName::Json | FieldName::Req | FieldName::Res => match crate::json::spec_lookup(
            mv,
            spec_field_key(f),
        ) {
            Some(j) => Some(FieldValueV::Json(j)),
            None => None,
        },
        FieldName::Level => match crate::json::spec_lookup(mv, "level"@) {
            Some(JsonV::Text(s)) => match spec_parse_level(s) {
                Some(l) => Some(FieldValueV::Level(l)),
                None => None,
            },
            _ => None,
        },
        FieldName::MsgTag => match crate::json::spec_lookup(mv, "msg"@) {
            Some(JsonV::Text(s)) => match spec_tag(s) {
                Some(t) => Some(FieldValueV::String(t)),
                None => None,
            },
            _ => None,
        },
        _ => match crate::json::spec_lookup(mv, spec_field_key(f)) {
            Some(j) => Some(FieldValueV::String(crate::json::spec_scalar_text(j))),
            None => None,
        },
    }
}

impl JsonlMessage {
    pub fn get_field_value(&self, kind: MessageKind, field_name: FieldName) -> (r: Option<
        FieldValue,
    >)
        ensures
            fv_opt_view(r) == spec_jsonl_field(*self, kind, field_name),
    {
        match field_name {
            FieldName::Kind => Some(FieldValue::Kind(kind)),
            FieldName::Path => match &self.path {
                Some(p) => Some(FieldValue::Path(p.clone())),
                None => None,
            },
            FieldName::Json | FieldName::Req | FieldName::Res => {
                let key = field_name.key();
                match crate::json::lookup(&self.fields, key.as_str()) {
                    Some(j) => Some(FieldValue::Json(crate::json::clone_json(j))),
                    None => None,
                }
            },
            FieldName::Level => match crate::json::lookup(&self.fields, "level") {
                Some(Json::Text(s)) => match LogLevel::parse(s.as_str()) {
                    Some(l) => Some(FieldValue::Level(l)),
                    None => None,
                },
                _ => None,
            },
            FieldName::MsgTag => match crate::json::lookup(&self.fields, "msg") {
                Some(Json::Text(s)) => match get_message_tag(s.as_str()) {
                    Some(t) => Some(FieldValue::String(t)),
                    None => None,
                },
                _ => None,
            },
            _ => {
                let key = field_name.key();
                match crate::json::lookup(&self.fields, key.as_str()) {
                    Some(j) => Some(FieldValue::String(crate::json::scalar_text(j))),
                    None => None,
                }
            },
        }
    }
}


/// The unified record: a tagged union whose active variant matches the
/// record's source kind.
#[derive(Debug)]
pub enum Message {
    Api(ApiMessage),
    AuthWebhook(AuthWebhookMessage),
    Cluster(ClusterMessage),
    Connection(ConnectionMessage),
    Crash(CrashMessage),
    Debug(JsonlMessage),
    EventWebhook(JsonlMessage),
    EventWebhookError(JsonlMessage),
    Internal(JsonlMessage),
    SessionWebhook(JsonlMessage),
    SessionWebhookError(JsonlMessage),
    Signaling(JsonlMessage),
    Sora(JsonlMessage),
    StatsWebhook(JsonlMessage),
    StatsWebhookError(JsonlMessage),
}

/// The kind a record carries.
pub open spec fn spec_kind(m: Message) -> MessageKind {
    match m {
        Message::Api(_) => MessageKind::Api,
        Message::AuthWebhook(_) => MessageKind::AuthWebhook,
        Message::Cluster(_) => MessageKind::Cluster,
        Message::Connection(_) => MessageKind::Connection,
        Message::Crash(_) => MessageKind::Crash,
        Message::Debug(_) => MessageKind::Debug,
        Message::EventWebhook(_) => MessageKind::EventWebhook,
        Message::EventWebhookError(_) => MessageKind::EventWebhookError,
        Message::Internal(_) => MessageKind::Internal,
        Message::SessionWebhook(_) => MessageKind::SessionWebhook,
        Message::SessionWebhookError(_) => MessageKind::SessionWebhookError,
        Message::Signaling(_) => MessageKind::Signaling,
        Message::Sora(_) => MessageKind::Sora,
        Message::StatsWebhook(_) => MessageKind::StatsWebhook,
        Message::StatsWebhookError(_) => MessageKind::StatsWebhookError,
    }
}

/// The generic record inside a generic variant.
pub open spec fn spec_generic_message(m: Message) -> Option<JsonlMessage> {
    match m {
        Message::Debug(x) => Some(x),
        Message::EventWebhook(x) => Some(x),
        Message::EventWebhookError(x) => Some(x),
        Message::Internal(x) => Some(x),
        Message::SessionWebhook(x) => Some(x),
        Message::SessionWebhookError(x) => Some(x),
        Message::Signaling(x) => Some(x),
        Message::Sora(x) => Some(x),
        Message::StatsWebhook(x) => Some(x),
        Message::StatsWebhookError(x) => Some(x),
        _ => None,
    }
}

/// What a record answers for a field, dispatched to its active variant.
pub open spec fn spec_field_value(m: Message, f: FieldName) -> Option<FieldValueV> {
    match m {
        Message::Api(x) => spec_api_field(x, f),
        Message::AuthWebhook(x) => spec_auth_webhook_field(x, f),
        Message::Cluster(x) => spec_cluster_field(x, f),
        Message::Connection(x) => spec_connection_field(x, f),
        Message::Crash(x) => spec_crash_field(x, f),
        Message::Debug(x) => spec_jsonl_field(x, MessageKind::Debug, f),
        Message::EventWebhook(x) => spec_jsonl_field(x, MessageKind::EventWebhook, f),
        Message::EventWebhookError(x) => spec_jsonl_field(x, MessageKind::EventWebhookError, f),
        Message::Internal(x) => spec_jsonl_field(x, MessageKind::Internal, f),
        Message::SessionWebhook(x) => spec_jsonl_field(x, MessageKind::SessionWebhook, f),
        Message::SessionWebhookError(x) => spec_jsonl_field(
            x,
            MessageKind::SessionWebhookError,
            f,
        ),
        Message::Signaling(x) => spec_jsonl_field(x, MessageKind::Signaling, f),
        Message::Sora(x) => spec_jsonl_field(x, MessageKind::Sora, f),
        Message::StatsWebhook(x) => spec_jsonl_field(x, MessageKind::StatsWebhook, f),
        Message::StatsWebhookError(x) => spec_jsonl_field(x, MessageKind::StatsWebhookError, f),
    }
}

/// A record's level: what it answers for the `level` field, with `Info`
/// standing in when the record has none.
pub open spec fn spec_message_level(m: Message) -> LogLevel {
    match spec_field_value(m, FieldName::Level) {
        Some(FieldValueV::Level(l)) => l,
        _ => LogLevel::Info,
    }
}

/// What a record answers for an arbitrary key: the key is read as a field
/// name; unknown keys answer nothing.
pub open spec fn spec_get_value(m: Message, key: Seq<char>) -> Option<FieldValueV> {
    match spec_parse_field(key) {
        Some(f) => spec_field_value(m, f),
        None => None,
    }
}

impl Message {
    /// The kind of this record.
    pub fn kind(&self) -> (k: MessageKind)
        ensures
            k == spec_kind(*self),
    {
        match self {
            Message::Api(_) => MessageKind::Api,
            Message::AuthWebhook(_) => MessageKind::AuthWebhook,
            Message::Cluster(_) => MessageKind::Cluster,
            Message::Connection(_) => MessageKind::Connection,
            Message::Crash(_) => MessageKind::Crash,
            Message::Debug(_) => MessageKind::Debug,
            Message::EventWebhook(_) => MessageKind::EventWebhook,
            Message::EventWebhookError(_) => MessageKind::EventWebhookError,
            Message::Internal(_) => MessageKind::Internal,
            Message::SessionWebhook(_) => MessageKind::SessionWebhook,
            Message::SessionWebhookError(_) => MessageKind::SessionWebhookError,
            Message::Signaling(_) => MessageKind::Signaling,
            Message::Sora(_) => MessageKind::Sora,
            Message::StatsWebhook(_) => MessageKind::StatsWebhook,
            Message::StatsWebhookError(_) => MessageKind::StatsWebhookError,
        }
    }

    /// What this record answers for a field.
    pub fn get_field_value(&self, field_name: FieldName) -> (r: Option<FieldValue>)
        ensures
            fv_opt_view(r) == spec_field_value(*self, field_name),
    {
        match self {
            Message::Api(m) => m.get_field_value(field_name),
            Message::AuthWebhook(m) => m.get_field_value(field_name),
            Message::Cluster(m) => m.get_field_value(field_name),
            Message::Connection(m) => m.get_field_value(field_name),
            Message::Crash(m) => m.get_field_value(field_name),
            Message::Debug(m) => m.get_field_value(MessageKind::Debug, field_name),
            Message::EventWebhook(m) => m.get_field_value(MessageKind::EventWebhook, field_name),
            Message::EventWebhookError(m) => m.get_field_value(
                MessageKind::EventWebhookError,
                field_name,
            ),
            Message::Internal(m) => m.get_field_value(MessageKind::Internal, field_name),
            Message::SessionWebhook(m) => m.get_field_value(
                MessageKind::SessionWebhook,
                field_name,
            ),
            Message::SessionWebhookError(m) => m.get_field_value(
                MessageKind::SessionWebhookError,
                field_name,
            ),
            Message::Signaling(m) => m.get_field_value(MessageKind::Signaling, field_name),
            Message::Sora(m) => m.get_field_value(MessageKind::Sora, field_name),
            Message::StatsWebhook(m) => m.get_field_value(MessageKind::StatsWebhook, field_name),
            Message::StatsWebhookError(m) => m.get_field_value(
                MessageKind::StatsWebhookError,
                field_name,
            ),
        }
    }

    /// The record's level, `Info` when it carries none.
    pub fn level(&self) -> (l: LogLevel)
        ensures
            l == spec_message_level(*self),
    {
        match self.get_field_value(FieldName::Level) {
            Some(FieldValue::Level(v)) => v,
            _ => LogLevel::Info,
        }
    }

    /// What this record answers for an arbitrary string key.
    pub fn get_value(&self, key: &str) -> (r: Option<FieldValue>)
        ensures
            fv_opt_view(r) == spec_get_value(*self, key@),
    {
        match FieldName::parse(key) {
            Some(f) => self.get_field_value(f),
            None => None,
        }
    }
}

/// A kind whose records are held generically, as a key-value record.
pub open spec fn spec_is_generic_kind(k: MessageKind) -> bool {
    match k {
        MessageKind::Debug => true,
        MessageKind::EventWebhook => true,
        MessageKind::EventWebhookError => true,
        MessageKind::Internal => true,
        MessageKind::SessionWebhook => true,
        MessageKind::SessionWebhookError => true,
        MessageKind::Signaling => true,
        MessageKind::Sora => true,
        MessageKind::StatsWebhook => true,
        MessageKind::StatsWebhookError => true,
        _ => false,
    }
}

/// Every element of the array is a string.
pub open spec fn spec_text_items(items: Seq<JsonV>) -> bool {
    forall|i: int| 0 <= i < items.len() ==> (#[trigger] items[i]) is Text
}

/// The dotted suffix the `domain` array contributes: a `.` before each
/// element's text, in order, over the first `n` elements.
pub open spec fn spec_domain_suffix_upto(items: Seq<JsonV>, n: int) -> Seq<char>
    decreases n,
{
    if n <= 0 || n > items.len() {
        Seq::empty()
    } else {
        spec_domain_suffix_upto(items, n - 1) + seq!['.'] + crate::json::spec_scalar_text(
            items[n - 1],
        )
    }
}

/// The synthesized `@domain` value: the kind's name, extended by the
/// record's `domain` field only when that field holds an array of
/// strings; any other shape leaves the kind's name alone.
pub open spec fn spec_domain_string(kind: MessageKind, mv: Seq<(Seq<char>, JsonV)>) -> Seq<char> {
    spec_kind_name(kind) + match crate::json::spec_lookup(mv, "domain"@) {
        Some(JsonV::Array(items)) => if spec_text_items(items) {
            spec_domain_suffix_upto(items, items.len() as int)
        } else {
            Seq::empty()
        },
        _ => Seq::empty(),
    }
}

/// Whether every element of the array is a string.
#[verifier::loop_isolation(false)]
fn all_texts(a: &Vec<Json>) -> (r: bool)
    ensures
        r == spec_text_items(crate::json::json_seq_view(a@)),
{
    proof {
        crate::json::lemma_json_seq_view(a@);
    }
    let ghost items = crate::json::json_seq_view(a@);
    let mut i: usize = 0;
    while i < a.len()
        invariant
            i <= a.len(),
            forall|k: int| 0 <= k < i ==> (#[trigger] items[k]) is Text,
        decreases a.len() - i,
    {
        match &a[i] {
            Json::Text(_) => {},
            _ => {
                proof {
                    assert(!(items[i as int] is Text));
                }
                return false;
            },
        }
        i = i + 1;
    }
    true
}

/// The `@domain` value for a generic record.
#[verifier::loop_isolation(false)]
pub fn domain_string(kind: MessageKind, fields: &Vec<(String, Json)>) -> (s: String)
    ensures
        s@ == spec_domain_string(kind, crate::json::json_map_view(fields@)),
{
    let ghost mv = crate::json::json_map_view(fields@);
    let name = kind.name();
    let mut out: Vec<char> = str_chars(name.as_str());
    match crate::json::lookup(fields, "domain") {
        Some(j) => {
            match j {
                Json::Array(a) => {
                    proof {
                        crate::json::lemma_json_seq_view(a@);
                    }
                    let ghost items = crate::json::json_seq_view(a@);
                    if !all_texts(a) {
                        proof {
                            assert(out@ =~= spec_domain_string(kind, mv));
                        }
                        return crate::text::chars_to_string(&out);
                    }
                    let mut i: usize = 0;
                    while i < a.len()
                        invariant
                            i <= a.len(),
                            out@ == spec_kind_name(kind) + spec_domain_suffix_upto(
                                items,
                                i as int,
                            ),
                        decreases a.len() - i,
                    {
                        out.push('.');
                        let piece = crate::json::scalar_text(&a[i]);
                        let pcs = str_chars(piece.as_str());
                        let mut q: usize = 0;
                        while q < pcs.len()
                            invariant
                                q <= pcs.len(),
                                out@ == spec_kind_name(kind) + spec_domain_suffix_upto(
                                    items,
                                    i as int,
                                ) + seq!['.'] + pcs@.subrange(0, q as int),
                            decreases pcs.len() - q,
                        {
                            out.push(pcs[q]);
                            assert(out@ =~= spec_kind_name(kind) + spec_domain_suffix_upto(
                                items,
                                i as int,
                            ) + seq!['.'] + pcs@.subrange(0, q + 1));
                            q = q + 1;
                        }
                        proof {
                            assert(pcs@.subrange(0, pcs@.len() as int) =~= pcs@);
                            assert(out@ =~= spec_kind_name(kind) + spec_domain_suffix_upto(
                                items,
                                i + 1,
                            ));
                        }
                        i = i + 1;
                    }
                },
                _ => {
                    proof {
                        assert(out@ =~= spec_domain_string(kind, mv));
                    }
                },
            }
        },
        None => {
            proof {
                assert(out@ =~= spec_domain_string(kind, mv));
            }
        },
    }
    proof {
        assert(out@ =~= spec_domain_string(kind, mv));
    }
    crate::text::chars_to_string(&out)
}

/// The `type` of a nested request object, if the record carries one.
pub open spec fn spec_req_type(mv: Seq<(Seq<char>, JsonV)>) -> Option<Seq<char>> {
    match crate::json::spec_lookup(mv, "req"@) {
        Some(JsonV::Object(req)) => match crate::json::spec_lookup(req, "type"@) {
            Some(t) => Some(crate::json::spec_scalar_text(t)),
            None => None,
        },
        _ => None,
    }
}

/// The tag of the record's `msg` string, if it has one.
pub open spec fn spec_msg_tag_type(mv: Seq<(Seq<char>, JsonV)>) -> Option<Seq<char>> {
    match crate::json::spec_lookup(mv, "msg"@) {
        Some(JsonV::Text(s)) => spec_tag(s),
        _ => None,
    }
}

/// The synthesized `@type` value, probed in strict priority order: a
/// top-level `type` field, else a top-level `operation` field, else a
/// `type` field inside a top-level `req` object, else the tag of the
/// `msg` string; absent when none matches.
pub open spec fn spec_resolve_type(mv: Seq<(Seq<char>, JsonV)>) -> Option<Seq<char>> {
    match crate::json::spec_lookup(mv, "type"@) {
        Some(t) => Some(crate::json::spec_scalar_text(t)),
        None => match crate::json::spec_lookup(mv, "operation"@) {
            Some(o) => Some(crate::json::spec_scalar_text(o)),
            None => match spec_req_type(mv) {
                Some(t) => Some(t),
                None => spec_msg_tag_type(mv),
            },
        },
    }
}

/// The `@type` value for a generic record.
pub fn resolve_type(fields: &Vec<(String, Json)>) -> (r: Option<String>)
    ensures
        str_opt_view(r) == spec_resolve_type(crate::json::json_map_view(fields@)),
{
    match crate::json::lookup(fields, "type") {
        Some(t) => Some(crate::json::scalar_text(t)),
        None => match crate::json::lookup(fields, "operation") {
            Some(o) => Some(crate::json::scalar_text(o)),
            None => {
                let from_req = match crate::json::lookup(fields, "req") {
                    Some(Json::Object(req)) => match crate::json::lookup(req, "type") {
                        Some(t) => Some(crate::json::scalar_text(t)),
                        None => None,
                    },
                    _ => None,
                };
                match from_req {
                    Some(t) => Some(t),
                    None => match crate::json::lookup(fields, "msg") {
                        Some(Json::Text(s)) => get_message_tag(s.as_str()),
                        _ => None,
                    },
                }
            },
        },
    }
}

/// The key set of a generic record after synthesis: `@domain` and `@path`
/// always, `@type` when a value for it was found.  Every entry under a
/// non-synthetic key stays unchanged in place; an entry already carrying
/// one of the three `@`-prefixed names is replaced, since that namespace
/// belongs to the synthesizer.
pub open spec fn spec_synthesized_fields(
    kind: MessageKind,
    mv: Seq<(Seq<char>, JsonV)>,
    path: Seq<char>,
) -> Seq<(Seq<char>, JsonV)> {
    let s1 = crate::json::spec_set(mv, "@domain"@, JsonV::Text(spec_domain_string(kind, mv)));
    let s2 = match spec_resolve_type(mv) {
        Some(t) => crate::json::spec_set(s1, "@type"@, JsonV::Text(t)),
        None => s1,
    };
    crate::json::spec_set(s2, "@path"@, JsonV::Text(path))
}

impl Message {
    /// Wraps a parsed generic record in the variant its kind names, records
    /// the originating path, and synthesizes the `@domain`, `@type` and
    /// `@path` fields from the record's content as parsed.  Entries under
    /// other keys survive unchanged; an entry already named like a
    /// synthetic key is replaced by the synthesized value.
    pub fn from_jsonl_message(kind: MessageKind, path: String, message: JsonlMessage) -> (r:
        Message)
        requires
            spec_is_generic_kind(kind),
        ensures
            spec_kind(r) == kind,
            match spec_generic_message(r) {
                Some(g) => g.path == Some(path) && crate::json::json_map_view(g.fields@)
                    == spec_synthesized_fields(
                    kind,
                    crate::json::json_map_view(message.fields@),
                    path@,
                ),
                None => false,
            },
    {
        let ghost mv = crate::json::json_map_view(message.fields@);
        let dom = domain_string(kind, &message.fields);
        let ty = resolve_type(&message.fields);
        let mut message = message;
        message.path = Some(path.clone());
        crate::json::set_entry(&mut message.fields, String::from_str("@domain"), Json::Text(dom));
        match ty {
            Some(t) => {
                crate::json::set_entry(&mut message.fields, String::from_str("@type"), Json::Text(t));
            },
            None => {},
        }
        crate::json::set_entry(&mut message.fields, String::from_str("@path"), Json::Text(path));
        match kind {
            MessageKind::Debug => Message::Debug(message),
            MessageKind::EventWebhook => Message::EventWebhook(message),
            MessageKind::EventWebhookError => Message::EventWebhookError(message),
            MessageKind::Internal => Message::Internal(message),
            MessageKind::SessionWebhook => Message::SessionWebhook(message),
            MessageKind::SessionWebhookError => Message::SessionWebhookError(message),
            MessageKind::Signaling => Message::Signaling(message),
            MessageKind::Sora => Message::Sora(message),
            MessageKind::StatsWebhook => Message::StatsWebhook(message),
            MessageKind::StatsWebhookError => Message::StatsWebhookError(message),
            _ => {
                proof {
                    assert(false);
                }
                Message::Debug(message)
            },
        }
    }
}


/// Why a record or file could not be parsed, with the path it came from.
#[derive(Debug)]
pub enum ParseError {
    InvalidJson { path: String, detail: String },
    NotAnObject { path: String },
    MissingField { path: String, field: String },
    WrongFieldType { path: String, field: String },
    MissingCrashMarker { path: String },
    UnsupportedKind { path: String },
}

impl ParseError {
    /// A diagnostic line naming the offending path and the reason.
    pub fn message(&self) -> (s: String)
        ensures
            s@ == match self {
                ParseError::InvalidJson { path, detail } => path@ + ": invalid JSON: "@
                    + detail@,
                ParseError::NotAnObject { path } => path@ + ": the record is not a JSON object"@,
                ParseError::MissingField { path, field } => path@ + ": missing field: "@
                    + field@,
                ParseError::WrongFieldType { path, field } => path@ + ": wrong type for field: "@
                    + field@,
                ParseError::MissingCrashMarker { path } => path@
                    + ": crash log does not start with the crash report marker"@,
                ParseError::UnsupportedKind { path } => path@
                    + ": no line parser exists for this kind of file"@,
            },
    {
        match self {
            ParseError::InvalidJson { path, detail } => {
                let mut s = path.clone();
                s.append(": invalid JSON: ");
                s.append(detail.as_str());
                s
            },
            ParseError::NotAnObject { path } => {
                let mut s = path.clone();
                s.append(": the record is not a JSON object");
                s
            },
            ParseError::MissingField { path, field } => {
                let mut s = path.clone();
                s.append(": missing field: ");
                s.append(field.as_str());
                s
            },
            ParseError::WrongFieldType { path, field } => {
                let mut s = path.clone();
                s.append(": wrong type for field: ");
                s.append(field.as_str());
                s
            },
            ParseError::MissingCrashMarker { path } => {
                let mut s = path.clone();
                s.append(": crash log does not start with the crash report marker");
                s
            },
            ParseError::UnsupportedKind { path } => {
                let mut s = path.clone();
                s.append(": no line parser exists for this kind of file");
                s
            },
        }
    }
}

/// The marker that opens every crash report.
pub open spec fn spec_marker() -> Seq<char> {
    "=CRASH REPORT "@
}

/// The segments of a crash log that starts with the marker: the text up to
/// each further marker occurrence — searched strictly beyond the marker
/// that opens the current segment — then the remainder, each trimmed.
pub open spec fn spec_segments(text: Seq<char>) -> Seq<Seq<char>>
    decreases text.len(),
{
    match crate::text::spec_find_from(text, spec_marker(), spec_marker().len() as int) {
        Some(e) => {
            proof {
                reveal_strlit("=CRASH REPORT ");
                crate::text::lemma_find_from_found(text, spec_marker(), spec_marker().len() as int);
            }
            seq![crate::text::trim_seq(text.take(e))] + spec_segments(text.skip(e))
        },
        None => seq![crate::text::trim_seq(text)],
    }
}

/// The trimmed raw texts of a sequence of crash records.
pub open spec fn spec_crash_raws(v: Seq<CrashMessage>) -> Seq<Seq<char>> {
    Seq::new(v.len(), |i: int| v[i].raw@)
}

impl CrashMessage {
    /// Splits one crash log into its reports.  An empty file holds none; a
    /// non-empty file must open with the crash report marker.
    #[verifier::loop_isolation(false)]
    #[verifier::rlimit(100)]
    pub fn parse(path: String, text: &str) -> (r: Result<Vec<CrashMessage>, ParseError>)
        ensures
            match r {
                Ok(v) => {
                    &&& text@.len() == 0 ==> v@.len() == 0
                    &&& text@.len() > 0 ==> {
                        &&& crate::text::has_prefix(text@, spec_marker())
                        &&& spec_crash_raws(v@) == spec_segments(text@)
                        &&& forall|i: int| 0 <= i < v@.len() ==> (#[trigger] v@[i]).path@
                            == path@
                    }
                },
                Err(e) => {
                    &&& text@.len() > 0
                    &&& !crate::text::has_prefix(text@, spec_marker())
                    &&& match e {
                        ParseError::MissingCrashMarker { path: p } => p@ == path@,
                        _ => false,
                    }
                },
            },
    {
        let cs = str_chars(text);
        if cs.len() == 0 {
            let empty: Vec<CrashMessage> = Vec::new();
            proof {
                assert(spec_crash_raws(empty@) =~= Seq::<Seq<char>>::empty());
            }
            return Ok(empty);
        }
        let marker = str_chars("=CRASH REPORT ");
        proof {
            reveal_strlit("=CRASH REPORT ");
        }
        if !crate::text::starts_with_chars(&cs, &marker) {
            return Err(ParseError::MissingCrashMarker { path });
        }
        let mut out: Vec<CrashMessage> = Vec::new();
        let mut cur: usize = 0;
        proof {
            assert(text@.skip(0) =~= text@);
            assert(spec_crash_raws(out@) =~= Seq::<Seq<char>>::empty());
        }
        loop
            invariant
                cur <= cs.len(),
                spec_segments(text@) == spec_crash_raws(out@) + spec_segments(
                    text@.skip(cur as int),
                ),
                forall|i: int| 0 <= i < out@.len() ==> (#[trigger] out@[i]).path@ == path@,
            decreases cs.len() - cur,
        {
            let ghost rest = text@.skip(cur as int);
            let nxt = if cs.len() - cur >= 14 {
                find_from_abs(&cs, &marker, cur)
            } else {
                proof {
                    crate::text::lemma_find_from_shift(text@, spec_marker(), cur as int, 14);
                }
                None
            };
            proof {
                crate::text::lemma_find_from_shift(text@, spec_marker(), cur as int, 14);
            }
            match nxt {
                Some(e) => {
                    proof {
                        crate::text::lemma_find_from_found(text@, spec_marker(), cur + 14);
                    }
                    let mut seg: Vec<char> = Vec::new();
                    let mut j: usize = cur;
                    while j < e
                        invariant
                            cur <= j <= e,
                            seg@ == text@.subrange(cur as int, j as int),
                        decreases e - j,
                    {
                        seg.push(cs[j]);
                        assert(seg@ =~= text@.subrange(cur as int, j + 1));
                        j = j + 1;
                    }
                    let t = crate::text::trim_chars(&seg);
                    let raw = crate::text::chars_to_string(&t);
                    out.push(CrashMessage { raw, path: path.clone() });
                    proof {
                        assert(rest.take(e - cur as int) =~= text@.subrange(cur as int, e as int));
                        assert(rest.skip(e - cur as int) =~= text@.skip(e as int));
                        assert(spec_crash_raws(out@) =~= spec_crash_raws(out@.drop_last())
                            + seq![crate::text::trim_seq(rest.take(e - cur as int))]);
                        assert(spec_segments(text@) =~= spec_crash_raws(out@) + spec_segments(
                            text@.skip(e as int),
                        ));
                    }
                    cur = e;
                },
                None => {
                    let mut seg: Vec<char> = Vec::new();
                    let mut j: usize = cur;
                    while j < cs.len()
                        invariant
                            cur <= j <= cs.len(),
                            seg@ == text@.subrange(cur as int, j as int),
                        decreases cs.len() - j,
                    {
                        seg.push(cs[j]);
                        assert(seg@ =~= text@.subrange(cur as int, j + 1));
                        j = j + 1;
                    }
                    let t = crate::text::trim_chars(&seg);
                    let raw = crate::text::chars_to_string(&t);
                    out.push(CrashMessage { raw, path });
                    proof {
                        assert(seg@ =~= rest);
                        assert(spec_crash_raws(out@) =~= spec_crash_raws(out@.drop_last())
                            + seq![crate::text::trim_seq(rest)]);
                        assert(spec_segments(text@) =~= spec_crash_raws(out@));
                    }
                    return Ok(out);
                },
            }
        }
    }
}

/// The first marker occurrence at or beyond one marker length past `cur`.
fn find_from_abs(cs: &Vec<char>, marker: &Vec<char>, cur: usize) -> (r: Option<usize>)
    requires
        marker@.len() == 14,
        cur + 14 <= cs@.len(),
    ensures
        match r {
            Some(i) => crate::text::spec_find_from(cs@, marker@, cur + 14) == Some(i as int),
            None => crate::text::spec_find_from(cs@, marker@, cur + 14) is None,
        },
{
    let n = cs.len();
    assert(cur + 14 <= n);
    crate::text::find_from(cs, marker, cur + 14)
}


/// The entries' views of a parsed object.
pub open spec fn mv_of(fields: Seq<(String, Json)>) -> Seq<(Seq<char>, JsonV)> {
    crate::json::json_map_view(fields)
}

/// The key holds a string.
pub open spec fn spec_has_text(mv: Seq<(Seq<char>, JsonV)>, key: Seq<char>) -> bool {
    match crate::json::spec_lookup(mv, key) {
        Some(JsonV::Text(_)) => true,
        _ => false,
    }
}

/// The key holds a boolean.
pub open spec fn spec_has_bool(mv: Seq<(Seq<char>, JsonV)>, key: Seq<char>) -> bool {
    match crate::json::spec_lookup(mv, key) {
        Some(JsonV::Bool(_)) => true,
        _ => false,
    }
}

/// The key holds any value at all.
pub open spec fn spec_has_value(mv: Seq<(Seq<char>, JsonV)>, key: Seq<char>) -> bool {
    crate::json::spec_lookup(mv, key) is Some
}

/// The key is absent, null, or holds a string: the shapes an optional
/// string field accepts.
pub open spec fn spec_opt_text_ok(mv: Seq<(Seq<char>, JsonV)>, key: Seq<char>) -> bool {
    match crate::json::spec_lookup(mv, key) {
        None => true,
        Some(JsonV::Null) => true,
        Some(JsonV::Text(_)) => true,
        _ => false,
    }
}

/// The key holds a string naming a log level.
pub open spec fn spec_has_level(mv: Seq<(Seq<char>, JsonV)>, key: Seq<char>) -> bool {
    match crate::json::spec_lookup(mv, key) {
        Some(JsonV::Text(s)) => spec_parse_level(s) is Some,
        _ => false,
    }
}

/// The key holds an array of strings.
pub open spec fn spec_has_text_array(mv: Seq<(Seq<char>, JsonV)>, key: Seq<char>) -> bool {
    match crate::json::spec_lookup(mv, key) {
        Some(JsonV::Array(items)) => forall|i: int|
            0 <= i < items.len() ==> (#[trigger] items[i]) is Text,
        _ => false,
    }
}

/// A required string field.
fn req_text(fields: &Vec<(String, Json)>, key: &str, path: &str) -> (r: Result<String, ParseError>)
    ensures
        match r {
            Ok(s) => crate::json::spec_lookup(mv_of(fields@), key@) == Some(JsonV::Text(s@)),
            Err(e) => !spec_has_text(mv_of(fields@), key@) && match e {
                ParseError::MissingField { path: p, field: f } => crate::json::spec_lookup(
                    mv_of(fields@),
                    key@,
                ) is None && p@ == path@ && f@ == key@,
                ParseError::WrongFieldType { path: p, field: f } => crate::json::spec_lookup(
                    mv_of(fields@),
                    key@,
                ) is Some && p@ == path@ && f@ == key@,
                _ => false,
            },
        },
{
    match crate::json::lookup(fields, key) {
        None => Err(
            ParseError::MissingField { path: path.to_owned(), field: key.to_owned() },
        ),
        Some(Json::Text(s)) => Ok(s.clone()),
        Some(_) => Err(
            ParseError::WrongFieldType { path: path.to_owned(), field: key.to_owned() },
        ),
    }
}

/// A required boolean field.
fn req_bool(fields: &Vec<(String, Json)>, key: &str, path: &str) -> (r: Result<bool, ParseError>)
    ensures
        match r {
            Ok(b) => crate::json::spec_lookup(mv_of(fields@), key@) == Some(JsonV::Bool(b)),
            Err(e) => !spec_has_bool(mv_of(fields@), key@) && match e {
                ParseError::MissingField { path: p, field: f } => crate::json::spec_lookup(
                    mv_of(fields@),
                    key@,
                ) is None && p@ == path@ && f@ == key@,
                ParseError::WrongFieldType { path: p, field: f } => crate::json::spec_lookup(
                    mv_of(fields@),
                    key@,
                ) is Some && p@ == path@ && f@ == key@,
                _ => false,
            },
        },
{
    match crate::json::lookup(fields, key) {
        None => Err(
            ParseError::MissingField { path: path.to_owned(), field: key.to_owned() },
        ),
        Some(Json::Bool(b)) => Ok(*b),
        Some(_) => Err(
            ParseError::WrongFieldType { path: path.to_owned(), field: key.to_owned() },
        ),
    }
}

/// A required field of any JSON shape.
fn req_json(fields: &Vec<(String, Json)>, key: &str, path: &str) -> (r: Result<Json, ParseError>)
    ensures
        match r {
            Ok(j) => crate::json::spec_lookup(mv_of(fields@), key@) == Some(j@),
            Err(e) => crate::json::spec_lookup(mv_of(fields@), key@) is None && match e {
                ParseError::MissingField { path: p, field: f } => p@ == path@ && f@ == key@,
                _ => false,
            },
        },
{
    match crate::json::lookup(fields, key) {
        None => Err(
            ParseError::MissingField { path: path.to_owned(), field: key.to_owned() },
        ),
        Some(j) => Ok(crate::json::clone_json(j)),
    }
}

/// An optional string field: absent or null is no value.
fn opt_text(fields: &Vec<(String, Json)>, key: &str, path: &str) -> (r: Result<
    Option<String>,
    ParseError,
>)
    ensures
        match r {
            Ok(o) => spec_opt_text_ok(mv_of(fields@), key@) && match crate::json::spec_lookup(
                mv_of(fields@),
                key@,
            ) {
                Some(JsonV::Text(s)) => str_opt_view(o) == Some(s),
                _ => o is None,
            },
            Err(e) => !spec_opt_text_ok(mv_of(fields@), key@) && match e {
                ParseError::WrongFieldType { path: p, field: f } => p@ == path@ && f@ == key@,
                _ => false,
            },
        },
{
    match crate::json::lookup(fields, key) {
        None => Ok(None),
        Some(Json::Null) => Ok(None),
        Some(Json::Text(s)) => Ok(Some(s.clone())),
        Some(_) => Err(
            ParseError::WrongFieldType { path: path.to_owned(), field: key.to_owned() },
        ),
    }
}

/// An optional field of any JSON shape: absent or null is no value.
fn opt_json(fields: &Vec<(String, Json)>, key: &str) -> (r: Option<Json>)
    ensures
        match crate::json::spec_lookup(mv_of(fields@), key@) {
            None => r is None,
            Some(JsonV::Null) => r is None,
            Some(j) => match r {
                Some(x) => x@ == j,
                None => false,
            },
        },
{
    match crate::json::lookup(fields, key) {
        None => None,
        Some(Json::Null) => None,
        Some(j) => Some(crate::json::clone_json(j)),
    }
}

/// A required level field: a string naming one of the six levels.
fn req_level(fields: &Vec<(String, Json)>, key: &str, path: &str) -> (r: Result<
    LogLevel,
    ParseError,
>)
    ensures
        match r {
            Ok(l) => match crate::json::spec_lookup(mv_of(fields@), key@) {
                Some(JsonV::Text(s)) => spec_parse_level(s) == Some(l),
                _ => false,
            },
            Err(e) => !spec_has_level(mv_of(fields@), key@) && match e {
                ParseError::MissingField { path: p, field: f } => crate::json::spec_lookup(
                    mv_of(fields@),
                    key@,
                ) is None && p@ == path@ && f@ == key@,
                ParseError::WrongFieldType { path: p, field: f } => crate::json::spec_lookup(
                    mv_of(fields@),
                    key@,
                ) is Some && p@ == path@ && f@ == key@,
                _ => false,
            },
        },
{
    match crate::json::lookup(fields, key) {
        None => Err(
            ParseError::MissingField { path: path.to_owned(), field: key.to_owned() },
        ),
        Some(Json::Text(s)) => match LogLevel::parse(s.as_str()) {
            Some(l) => Ok(l),
            None => Err(
                ParseError::WrongFieldType { path: path.to_owned(), field: key.to_owned() },
            ),
        },
        Some(_) => Err(
            ParseError::WrongFieldType { path: path.to_owned(), field: key.to_owned() },
        ),
    }
}

/// A required array-of-strings field.
#[verifier::loop_isolation(false)]
fn req_text_array(fields: &Vec<(String, Json)>, key: &str, path: &str) -> (r: Result<
    Vec<String>,
    ParseError,
>)
    ensures
        match r {
            Ok(v) => match crate::json::spec_lookup(mv_of(fields@), key@) {
                Some(JsonV::Array(items)) => items.len() == v@.len() && forall|i: int|
                    0 <= i < items.len() ==> items[i] == JsonV::Text((#[trigger] v@[i])@),
                _ => false,
            },
            Err(e) => !spec_has_text_array(mv_of(fields@), key@) && match e {
                ParseError::MissingField { path: p, field: f } => crate::json::spec_lookup(
                    mv_of(fields@),
                    key@,
                ) is None && p@ == path@ && f@ == key@,
                ParseError::WrongFieldType { path: p, field: f } => crate::json::spec_lookup(
                    mv_of(fields@),
                    key@,
                ) is Some && p@ == path@ && f@ == key@,
                _ => false,
            },
        },
{
    match crate::json::lookup(fields, key) {
        None => Err(
            ParseError::MissingField { path: path.to_owned(), field: key.to_owned() },
        ),
        Some(Json::Array(a)) => {
            proof {
                crate::json::lemma_json_seq_view(a@);
            }
            let ghost items = crate::json::json_seq_view(a@);
            let mut v: Vec<String> = Vec::new();
            let mut i: usize = 0;
            loop
                invariant
                    i <= a.len(),
                    items == crate::json::json_seq_view(a@),
                    items.len() == a@.len(),
                    forall|k: int| 0 <= k < a@.len() ==> items[k] == crate::json::json_view(
                        a@[k],
                    ),
                    v@.len() == i,
                    forall|k: int| 0 <= k < i ==> items[k] == JsonV::Text(
                        (#[trigger] v@[k])@,
                    ),
                decreases a.len() - i,
            {
                if i == a.len() {
                    return Ok(v);
                }
                match &a[i] {
                    Json::Text(s) => {
                        v.push(s.clone());
                    },
                    _ => {
                        proof {
                            assert(!(items[i as int] is Text));
                        }
                        return Err(
                            ParseError::WrongFieldType {
                                path: path.to_owned(),
                                field: key.to_owned(),
                            },
                        );
                    },
                }
                i = i + 1;
            }
        },
        Some(_) => Err(
            ParseError::WrongFieldType { path: path.to_owned(), field: key.to_owned() },
        ),
    }
}


/// What a field error of a parser names: its path is the parse's
/// diagnostic path, and the named field is indeed missing from, or
/// present with some shape in, the record.
pub open spec fn spec_field_err(
    mv: Seq<(Seq<char>, JsonV)>,
    source: Seq<char>,
    e: ParseError,
) -> bool {
    match e {
        ParseError::MissingField { path: p, field: f } => p@ == source && crate::json::spec_lookup(
            mv,
            f@,
        ) is None,
        ParseError::WrongFieldType { path: p, field: f } => p@ == source
            && crate::json::spec_lookup(mv, f@) is Some,
        _ => false,
    }
}

/// The shapes the API schema requires of a record.
pub open spec fn spec_api_wf(mv: Seq<(Seq<char>, JsonV)>) -> bool {
    &&& spec_has_text(mv, "timestamp"@)
    &&& spec_has_text(mv, "operation"@)
    &&& spec_has_value(mv, "json"@)
}

/// An API message holds exactly what the record carried.
pub open spec fn spec_api_core(mv: Seq<(Seq<char>, JsonV)>, m: ApiMessage) -> bool {
    &&& crate::json::spec_lookup(mv, "timestamp"@) == Some(JsonV::Text(m.timestamp.0@))
    &&& crate::json::spec_lookup(mv, "operation"@) == Some(JsonV::Text(m.operation@))
    &&& crate::json::spec_lookup(mv, "json"@) == Some(m.json@)
}

/// An API message holds exactly what the record carried, plus the path.
pub open spec fn spec_api_record(
    mv: Seq<(Seq<char>, JsonV)>,
    path: Seq<char>,
    m: ApiMessage,
) -> bool {
    spec_api_core(mv, m) && str_opt_view(m.path) == Some(path)
}

impl ApiMessage {
    /// Reads one API record from the entries of its parsed line.
    pub fn from_fields(path: &str, fields: &Vec<(String, Json)>) -> (r: Result<
        ApiMessage,
        ParseError,
    >)
        ensures
            match r {
                Ok(m) => spec_api_wf(mv_of(fields@)) && spec_api_record(
                    mv_of(fields@),
                    path@,
                    m,
                ),
                Err(e) => !spec_api_wf(mv_of(fields@)) && spec_field_err(
                    mv_of(fields@),
                    path@,
                    e,
                ),
            },
    {
        let timestamp = match req_text(fields, "timestamp", path) {
            Ok(s) => Timestamp(s),
            Err(e) => {
                return Err(e);
            },
        };
        let operation = match req_text(fields, "operation", path) {
            Ok(s) => s,
            Err(e) => {
                return Err(e);
            },
        };
        let json = match req_json(fields, "json", path) {
            Ok(j) => j,
            Err(e) => {
                return Err(e);
            },
        };
        Ok(ApiMessage { timestamp, operation, json, path: Some(path.to_owned()) })
    }
}

/// The shapes the authentication webhook schema requires of a record.
pub open spec fn spec_auth_webhook_wf(mv: Seq<(Seq<char>, JsonV)>) -> bool {
    &&& spec_has_text(mv, "id"@)
    &&& spec_has_text(mv, "timestamp"@)
    &&& spec_opt_text_ok(mv, "url"@)
    &&& spec_has_value(mv, "req"@)
}

/// An authentication webhook message holds exactly what the record
/// carried.
pub open spec fn spec_auth_webhook_core(
    mv: Seq<(Seq<char>, JsonV)>,
    m: AuthWebhookMessage,
) -> bool {
    &&& crate::json::spec_lookup(mv, "id"@) == Some(JsonV::Text(m.id@))
    &&& crate::json::spec_lookup(mv, "timestamp"@) == Some(JsonV::Text(m.timestamp.0@))
    &&& match crate::json::spec_lookup(mv, "url"@) {
        Some(JsonV::Text(s)) => str_opt_view(m.url) == Some(s),
        _ => m.url is None,
    }
    &&& crate::json::spec_lookup(mv, "req"@) == Some(m.req@)
    &&& match crate::json::spec_lookup(mv, "res"@) {
        None => m.res is None,
        Some(JsonV::Null) => m.res is None,
        Some(j) => match m.res {
            Some(x) => x@ == j,
            None => false,
        },
    }
}

/// An authentication webhook message holds exactly what the record
/// carried, plus the path.
pub open spec fn spec_auth_webhook_record(
    mv: Seq<(Seq<char>, JsonV)>,
    path: Seq<char>,
    m: AuthWebhookMessage,
) -> bool {
    spec_auth_webhook_core(mv, m) && str_opt_view(m.path) == Some(path)
}

impl AuthWebhookMessage {
    /// Reads one authentication webhook record from the entries of its
    /// parsed line.
    pub fn from_fields(path: &str, fields: &Vec<(String, Json)>) -> (r: Result<
        AuthWebhookMessage,
        ParseError,
    >)
        ensures
            match r {
                Ok(m) => spec_auth_webhook_wf(mv_of(fields@)) && spec_auth_webhook_record(
                    mv_of(fields@),
                    path@,
                    m,
                ),
                Err(e) => !spec_auth_webhook_wf(mv_of(fields@)) && spec_field_err(
                    mv_of(fields@),
                    path@,
                    e,
                ),
            },
    {
        let id = match req_text(fields, "id", path) {
            Ok(s) => s,
            Err(e) => {
                return Err(e);
            },
        };
        let timestamp = match req_text(fields, "timestamp", path) {
            Ok(s) => Timestamp(s),
            Err(e) => {
                return Err(e);
            },
        };
        let url = match opt_text(fields, "url", path) {
            Ok(o) => o,
            Err(e) => {
                return Err(e);
            },
        };
        let req = match req_json(fields, "req", path) {
            Ok(j) => j,
            Err(e) => {
                return Err(e);
            },
        };
        let res = opt_json(fields, "res");
        Ok(
            AuthWebhookMessage {
                id,
                timestamp,
                url,
                req,
                res,
                path: Some(path.to_owned()),
            },
        )
    }
}

/// The shapes the cluster schema requires of a record.
pub open spec fn spec_cluster_wf(mv: Seq<(Seq<char>, JsonV)>) -> bool {
    &&& spec_has_text(mv, "id"@)
    &&& spec_has_level(mv, "level"@)
    &&& spec_has_text(mv, "msg"@)
    &&& spec_has_text_array(mv, "domain"@)
    &&& spec_has_text(mv, "sora_version"@)
    &&& spec_has_text(mv, "node"@)
    &&& spec_has_text(mv, "timestamp"@)
    &&& spec_opt_text_ok(mv, "testcase"@)
}

/// A cluster message holds exactly what the record carried.
pub open spec fn spec_cluster_core(mv: Seq<(Seq<char>, JsonV)>, m: ClusterMessage) -> bool {
    &&& crate::json::spec_lookup(mv, "id"@) == Some(JsonV::Text(m.id@))
    &&& match crate::json::spec_lookup(mv, "level"@) {
        Some(JsonV::Text(s)) => spec_parse_level(s) == Some(m.level),
        _ => false,
    }
    &&& crate::json::spec_lookup(mv, "msg"@) == Some(JsonV::Text(m.msg@))
    &&& match crate::json::spec_lookup(mv, "domain"@) {
        Some(JsonV::Array(items)) => items.len() == m.domain@.len() && forall|i: int|
            0 <= i < items.len() ==> items[i] == JsonV::Text((#[trigger] m.domain@[i])@),
        _ => false,
    }
    &&& crate::json::spec_lookup(mv, "sora_version"@) == Some(JsonV::Text(m.sora_version@))
    &&& crate::json::spec_lookup(mv, "node"@) == Some(JsonV::Text(m.node@))
    &&& crate::json::spec_lookup(mv, "timestamp"@) == Some(JsonV::Text(m.timestamp.0@))
    &&& match crate::json::spec_lookup(mv, "testcase"@) {
        Some(JsonV::Text(s)) => str_opt_view(m.testcase) == Some(s),
        _ => m.testcase is None,
    }
}

/// A cluster message holds exactly what the record carried, plus the path.
pub open spec fn spec_cluster_record(
    mv: Seq<(Seq<char>, JsonV)>,
    path: Seq<char>,
    m: ClusterMessage,
) -> bool {
    spec_cluster_core(mv, m) && str_opt_view(m.path) == Some(path)
}

impl ClusterMessage {
    /// Reads one cluster record from the entries of its parsed line.
    pub fn from_fields(path: &str, fields: &Vec<(String, Json)>) -> (r: Result<
        ClusterMessage,
        ParseError,
    >)
        ensures
            match r {
                Ok(m) => spec_cluster_wf(mv_of(fields@)) && spec_cluster_record(
                    mv_of(fields@),
                    path@,
                    m,
                ),
                Err(e) => !spec_cluster_wf(mv_of(fields@)) && spec_field_err(
                    mv_of(fields@),
                    path@,
                    e,
                ),
            },
    {
        let id = match req_text(fields, "id", path) {
            Ok(s) => s,
            Err(e) => {
                return Err(e);
            },
        };
        let level = match req_level(fields, "level", path) {
            Ok(l) => l,
            Err(e) => {
                return Err(e);
            },
        };
        let msg = match req_text(fields, "msg", path) {
            Ok(s) => s,
            Err(e) => {
                return Err(e);
            },
        };
        let domain = match req_text_array(fields, "domain", path) {
            Ok(v) => v,
            Err(e) => {
                return Err(e);
            },
        };
        let sora_version = match req_text(fields, "sora_version", path) {
            Ok(s) => s,
            Err(e) => {
                return Err(e);
            },
        };
        let node = match req_text(fields, "node", path) {
            Ok(s) => s,
            Err(e) => {
                return Err(e);
            },
        };
        let timestamp = match req_text(fields, "timestamp", path) {
            Ok(s) => Timestamp(s),
            Err(e) => {
                return Err(e);
            },
        };
        let testcase = match opt_text(fields, "testcase", path) {
            Ok(o) => o,
            Err(e) => {
                return Err(e);
            },
        };
        proof {
            match crate::json::spec_lookup(mv_of(fields@), "domain"@) {
                Some(JsonV::Array(items)) => {
                    assert forall|i: int| 0 <= i < items.len() implies (#[trigger] items[i])
                        is Text by {
                        assert(items[i] == JsonV::Text(domain@[i]@));
                    }
                },
                _ => {
                    assert(false);
                },
            }
        }
        Ok(
            ClusterMessage {
                id,
                level,
                msg,
                domain,
                sora_version,
                node,
                timestamp,
                testcase,
                path: Some(path.to_owned()),
            },
        )
    }
}

/// The shapes the connection schema requires of a record.
pub open spec fn spec_connection_wf(mv: Seq<(Seq<char>, JsonV)>) -> bool {
    &&& spec_has_text(mv, "timestamp"@)
    &&& spec_has_text(mv, "created_timestamp"@)
    &&& spec_has_text(mv, "destroyed_timestamp"@)
    &&& spec_has_text(mv, "channel_id"@)
    &&& spec_has_text(mv, "session_id"@)
    &&& spec_has_text(mv, "client_id"@)
    &&& spec_has_text(mv, "bundle_id"@)
    &&& spec_has_text(mv, "connection_id"@)
    &&& spec_has_text(mv, "role"@)
    &&& spec_has_text(mv, "turn_transport_type"@)
    &&& spec_has_bool(mv, "simulcast"@)
    &&& spec_has_bool(mv, "spotlight"@)
    &&& spec_has_bool(mv, "multistream"@)
    &&& spec_has_bool(mv, "data_channel_signaling"@)
    &&& spec_has_bool(mv, "ignore_disconnect_websocket"@)
    &&& spec_has_bool(mv, "recording_block"@)
    &&& spec_has_bool(mv, "stats_exporter"@)
    &&& spec_has_bool(mv, "e2ee"@)
    &&& spec_has_text(mv, "destroyed_reason"@)
    &&& spec_opt_text_ok(mv, "data_channel_exit_reason"@)
    &&& spec_has_text(mv, "signaling_terminate_reason"@)
    &&& spec_has_value(mv, "audio"@)
    &&& spec_has_value(mv, "video"@)
    &&& spec_has_value(mv, "sora_client"@)
    &&& spec_has_value(mv, "local_stats"@)
}

/// A connection message holds exactly what the record carried.
pub open spec fn spec_connection_core(
    mv: Seq<(Seq<char>, JsonV)>,
    m: ConnectionMessage,
) -> bool {
    &&& crate::json::spec_lookup(mv, "timestamp"@) == Some(JsonV::Text(m.timestamp.0@))
    &&& crate::json::spec_lookup(mv, "created_timestamp"@) == Some(
        JsonV::Text(m.created_timestamp.0@),
    )
    &&& crate::json::spec_lookup(mv, "destroyed_timestamp"@) == Some(
        JsonV::Text(m.destroyed_timestamp.0@),
    )
    &&& crate::json::spec_lookup(mv, "channel_id"@) == Some(JsonV::Text(m.channel_id@))
    &&& crate::json::spec_lookup(mv, "session_id"@) == Some(JsonV::Text(m.session_id@))
    &&& crate::json::spec_lookup(mv, "client_id"@) == Some(JsonV::Text(m.client_id@))
    &&& crate::json::spec_lookup(mv, "bundle_id"@) == Some(JsonV::Text(m.bundle_id@))
    &&& crate::json::spec_lookup(mv, "connection_id"@) == Some(JsonV::Text(m.connection_id@))
    &&& crate::json::spec_lookup(mv, "role"@) == Some(JsonV::Text(m.role@))
    &&& crate::json::spec_lookup(mv, "turn_transport_type"@) == Some(
        JsonV::Text(m.turn_transport_type@),
    )
    &&& crate::json::spec_lookup(mv, "simulcast"@) == Some(JsonV::Bool(m.simulcast))
    &&& crate::json::spec_lookup(mv, "spotlight"@) == Some(JsonV::Bool(m.spotlight))
    &&& crate::json::spec_lookup(mv, "multistream"@) == Some(JsonV::Bool(m.multistream))
    &&& crate::json::spec_lookup(mv, "data_channel_signaling"@) == Some(
        JsonV::Bool(m.data_channel_signaling),
    )
    &&& crate::json::spec_lookup(mv, "ignore_disconnect_websocket"@) == Some(
        JsonV::Bool(m.ignore_disconnect_websocket),
    )
    &&& crate::json::spec_lookup(mv, "recording_block"@) == Some(JsonV::Bool(m.recording_block))
    &&& crate::json::spec_lookup(mv, "stats_exporter"@) == Some(JsonV::Bool(m.stats_exporter))
    &&& crate::json::spec_lookup(mv, "e2ee"@) == Some(JsonV::Bool(m.e2ee))
    &&& crate::json::spec_lookup(mv, "destroyed_reason"@) == Some(
        JsonV::Text(m.destroyed_reason@),
    )
    &&& match crate::json::spec_lookup(mv, "disconnect_api_reason"@) {
        None => m.disconnect_api_reason is None,
        Some(JsonV::Null) => m.disconnect_api_reason is None,
        Some(j) => match m.disconnect_api_reason {
            Some(x) => x@ == j,
            None => false,
        },
    }
    &&& match crate::json::spec_lookup(mv, "data_channel_exit_reason"@) {
        Some(JsonV::Text(s)) => str_opt_view(m.data_channel_exit_reason) == Some(s),
        _ => m.data_channel_exit_reason is None,
    }
    &&& crate::json::spec_lookup(mv, "signaling_terminate_reason"@) == Some(
        JsonV::Text(m.signaling_terminate_reason@),
    )
    &&& crate::json::spec_lookup(mv, "audio"@) == Some(m.audio@)
    &&& crate::json::spec_lookup(mv, "video"@) == Some(m.video@)
    &&& crate::json::spec_lookup(mv, "sora_client"@) == Some(m.sora_client@)
    &&& crate::json::spec_lookup(mv, "local_stats"@) == Some(m.local_stats@)
}

/// A connection message holds exactly what the record carried, plus the
/// path.
pub open spec fn spec_connection_record(
    mv: Seq<(Seq<char>, JsonV)>,
    path: Seq<char>,
    m: ConnectionMessage,
) -> bool {
    spec_connection_core(mv, m) && str_opt_view(m.path) == Some(path)
}

impl ConnectionMessage {
    /// Reads one connection record from the entries of its parsed line.
    pub fn from_fields(path: &str, fields: &Vec<(String, Json)>) -> (r: Result<
        ConnectionMessage,
        ParseError,
    >)
        ensures
            match r {
                Ok(m) => spec_connection_wf(mv_of(fields@)) && spec_connection_record(
                    mv_of(fields@),
                    path@,
                    m,
                ),
                Err(e) => !spec_connection_wf(mv_of(fields@)) && spec_field_err(
                    mv_of(fields@),
                    path@,
                    e,
                ),
            },
    {
        let timestamp = match req_text(fields, "timestamp", path) {
            Ok(s) => Timestamp(s),
            Err(e) => {
                return Err(e);
            },
        };
        let created_timestamp = match req_text(fields, "created_timestamp", path) {
            Ok(s) => Timestamp(s),
            Err(e) => {
                return Err(e);
            },
        };
        let destroyed_timestamp = match req_text(fields, "destroyed_timestamp", path) {
            Ok(s) => Timestamp(s),
            Err(e) => {
                return Err(e);
            },
        };
        let channel_id = match req_text(fields, "channel_id", path) {
            Ok(s) => s,
            Err(e) => {
                return Err(e);
            },
        };
        let session_id = match req_text(fields, "session_id", path) {
            Ok(s) => s,
            Err(e) => {
                return Err(e);
            },
        };
        let client_id = match req_text(fields, "client_id", path) {
            Ok(s) => s,
            Err(e) => {
                return Err(e);
            },
        };
        let bundle_id = match req_text(fields, "bundle_id", path) {
            Ok(s) => s,
            Err(e) => {
                return Err(e);
            },
        };
        let connection_id = match req_text(fields, "connection_id", path) {
            Ok(s) => s,
            Err(e) => {
                return Err(e);
            },
        };
        let role = match req_text(fields, "role", path) {
            Ok(s) => s,
            Err(e) => {
                return Err(e);
            },
        };
        let turn_transport_type = match req_text(fields, "turn_transport_type", path) {
            Ok(s) => s,
            Err(e) => {
                return Err(e);
            },
        };
        let simulcast = match req_bool(fields, "simulcast", path) {
            Ok(b) => b,
            Err(e) => {
                return Err(e);
            },
        };
        let spotlight = match req_bool(fields, "spotlight", path) {
            Ok(b) => b,
            Err(e) => {
                return Err(e);
            },
        };
        let multistream = match req_bool(fields, "multistream", path) {
            Ok(b) => b,
            Err(e) => {
                return Err(e);
            },
        };
        let data_channel_signaling = match req_bool(fields, "data_channel_signaling", path) {
            Ok(b) => b,
            Err(e) => {
                return Err(e);
            },
        };
        let ignore_disconnect_websocket = match req_bool(
            fields,
            "ignore_disconnect_websocket",
            path,
        ) {
            Ok(b) => b,
            Err(e) => {
                return Err(e);
            },
        };
        let recording_block = match req_bool(fields, "recording_block", path) {
            Ok(b) => b,
            Err(e) => {
                return Err(e);
            },
        };
        let stats_exporter = match req_bool(fields, "stats_exporter", path) {
            Ok(b) => b,
            Err(e) => {
                return Err(e);
            },
        };
        let e2ee = match req_bool(fields, "e2ee", path) {
            Ok(b) => b,
            Err(e) => {
                return Err(e);
            },
        };
        let destroyed_reason = match req_text(fields, "destroyed_reason", path) {
            Ok(s) => s,
            Err(e) => {
                return Err(e);
            },
        };
        let disconnect_api_reason = opt_json(fields, "disconnect_api_reason");
        let data_channel_exit_reason = match opt_text(fields, "data_channel_exit_reason", path) {
            Ok(o) => o,
            Err(e) => {
                return Err(e);
            },
        };
        let signaling_terminate_reason = match req_text(fields, "signaling_terminate_reason", path)
            {
            Ok(s) => s,
            Err(e) => {
                return Err(e);
            },
        };
        let audio = match req_json(fields, "audio", path) {
            Ok(j) => j,
            Err(e) => {
                return Err(e);
            },
        };
        let video = match req_json(fields, "video", path) {
            Ok(j) => j,
            Err(e) => {
                return Err(e);
            },
        };
        let sora_client = match req_json(fields, "sora_client", path) {
            Ok(j) => j,
            Err(e) => {
                return Err(e);
            },
        };
        let local_stats = match req_json(fields, "local_stats", path) {
            Ok(j) => j,
            Err(e) => {
                return Err(e);
            },
        };
        Ok(
            ConnectionMessage {
                timestamp,
                created_timestamp,
                destroyed_timestamp,
                channel_id,
                session_id,
                client_id,
                bundle_id,
                connection_id,
                role,
                turn_transport_type,
                simulcast,
                spotlight,
                multistream,
                data_channel_signaling,
                ignore_disconnect_websocket,
                recording_block,
                stats_exporter,
                e2ee,
                destroyed_reason,
                disconnect_api_reason,
                data_channel_exit_reason,
                signaling_terminate_reason,
                audio,
                video,
                sora_client,
                local_stats,
                path: Some(path.to_owned()),
            },
        )
    }
}

/// A kind whose records arrive as JSON lines and have a line parser:
/// every kind except the crash log, and except the authentication webhook
/// error log, which has no modeled record shape.
pub open spec fn spec_has_line_parser(k: MessageKind) -> bool {
    k != MessageKind::Crash && k != MessageKind::AuthWebhookError
}

/// What parsing one line must produce, for each outcome of the JSON parse.
pub open spec fn spec_line_outcome(
    kind: MessageKind,
    path: Seq<char>,
    line: Seq<char>,
    r: Result<Message, ParseError>,
) -> bool {
    match crate::json::parsed_json(line) {
        None => match r {
            Err(ParseError::InvalidJson { path: p, .. }) => p@ == path,
            _ => false,
        },
        Some(j) => match j {
            JsonV::Object(mv) => {
                if spec_is_generic_kind(kind) {
                    match r {
                        Ok(m) => {
                            &&& spec_kind(m) == kind
                            &&& match spec_generic_message(m) {
                                Some(g) => {
                                    &&& match g.path {
                                        Some(p) => p@ == path,
                                        None => false,
                                    }
                                    &&& crate::json::json_map_view(g.fields@)
                                        == spec_synthesized_fields(kind, mv, path)
                                },
                                None => false,
                            }
                        },
                        Err(_) => false,
                    }
                } else if kind == MessageKind::Api {
                    match r {
                        Ok(m) => match m {
                            Message::Api(am) => spec_api_record(mv, path, am),
                            _ => false,
                        },
                        Err(e) => !spec_api_wf(mv) && spec_field_err(mv, path, e),
                    }
                } else if kind == MessageKind::AuthWebhook {
                    match r {
                        Ok(m) => match m {
                            Message::AuthWebhook(am) => spec_auth_webhook_record(mv, path, am),
                            _ => false,
                        },
                        Err(e) => !spec_auth_webhook_wf(mv) && spec_field_err(mv, path, e),
                    }
                } else if kind == MessageKind::Cluster {
                    match r {
                        Ok(m) => match m {
                            Message::Cluster(am) => spec_cluster_record(mv, path, am),
                            _ => false,
                        },
                        Err(e) => !spec_cluster_wf(mv) && spec_field_err(mv, path, e),
                    }
                } else {
                    match r {
                        Ok(m) => match m {
                            Message::Connection(am) => spec_connection_record(mv, path, am),
                            _ => false,
                        },
                        Err(e) => !spec_connection_wf(mv) && spec_field_err(mv, path, e),
                    }
                }
            },
            _ => match r {
                Err(ParseError::NotAnObject { path: p }) => p@ == path,
                _ => false,
            },
        },
    }
}

/// Parses one line of a JSON-lines log into the record its kind names.
pub fn parse_log_line(kind: MessageKind, path: &str, line: &str) -> (r: Result<
    Message,
    ParseError,
>)
    requires
        spec_has_line_parser(kind),
    ensures
        spec_line_outcome(kind, path@, line@, r),
{
    let j = match crate::json::parse_json(line) {
        Ok(j) => j,
        Err(detail) => {
            return Err(ParseError::InvalidJson { path: path.to_owned(), detail });
        },
    };
    let fields = match j {
        Json::Object(fields) => fields,
        _ => {
            return Err(ParseError::NotAnObject { path: path.to_owned() });
        },
    };
    match kind {
        MessageKind::Api => match ApiMessage::from_fields(path, &fields) {
            Ok(m) => Ok(Message::Api(m)),
            Err(e) => Err(e),
        },
        MessageKind::AuthWebhook => match AuthWebhookMessage::from_fields(path, &fields) {
            Ok(m) => Ok(Message::AuthWebhook(m)),
            Err(e) => Err(e),
        },
        MessageKind::Cluster => match ClusterMessage::from_fields(path, &fields) {
            Ok(m) => Ok(Message::Cluster(m)),
            Err(e) => Err(e),
        },
        MessageKind::Connection => match ConnectionMessage::from_fields(path, &fields) {
            Ok(m) => Ok(Message::Connection(m)),
            Err(e) => Err(e),
        },
        _ => {
            let message = JsonlMessage { path: None, fields };
            Ok(Message::from_jsonl_message(kind, path.to_owned(), message))
        },
    }
}


/// Swapping the operands of a field-value comparison swaps `Less` and
/// `Greater` and keeps `Equal`.
pub proof fn lemma_fv_cmp_antisym(a: FieldValueV, b: FieldValueV)
    ensures
        spec_fv_cmp(a, b) == Ordering::Less <==> spec_fv_cmp(b, a) == Ordering::Greater,
        spec_fv_cmp(a, b) == Ordering::Equal <==> spec_fv_cmp(b, a) == Ordering::Equal,
{
    match (a, b) {
        (FieldValueV::String(x), FieldValueV::String(y)) => {
            crate::text::lemma_lex_antisym(x, y);
        },
        (FieldValueV::Kind(_), FieldValueV::Kind(_)) => {},
        (FieldValueV::Level(_), FieldValueV::Level(_)) => {},
        (FieldValueV::Path(x), FieldValueV::Path(y)) => {
            crate::text::lemma_lex_antisym(x, y);
        },
        _ => {
            crate::text::lemma_lex_antisym(spec_render(a), spec_render(b));
        },
    }
}


/// The `path` entry a record serializes, present only when the path was
/// injected.
pub open spec fn spec_path_entries(p: Option<String>) -> Seq<(Seq<char>, JsonV)> {
    match p {
        Some(s) => seq![("path"@, JsonV::Text(s@))],
        None => Seq::empty(),
    }
}

/// An optional string as JSON: the string, or null.
pub open spec fn spec_opt_text_json(o: Option<String>) -> JsonV {
    match o {
        Some(s) => JsonV::Text(s@),
        None => JsonV::Null,
    }
}

/// An optional JSON value as JSON: the value, or null.
pub open spec fn spec_opt_json_json(o: Option<Json>) -> JsonV {
    match o {
        Some(j) => crate::json::json_view(j),
        None => JsonV::Null,
    }
}

/// A list of strings as JSON values.
pub open spec fn spec_texts(v: Seq<String>) -> Seq<JsonV> {
    Seq::new(v.len(), |i: int| JsonV::Text(v[i]@))
}

/// The JSON form of a record, as the output stream carries it: the kind
/// tag first, then the schema's fields in order, the injected path last
/// for the typed schemas and right after the tag for the generic ones.
pub open spec fn spec_message_json(m: Message) -> JsonV {
    match m {
        Message::Api(x) => JsonV::Object(
            seq![
                ("kind"@, JsonV::Text("api"@)),
                ("timestamp"@, JsonV::Text(x.timestamp.0@)),
                ("operation"@, JsonV::Text(x.operation@)),
                ("json"@, crate::json::json_view(x.json)),
            ] + spec_path_entries(x.path),
        ),
        Message::AuthWebhook(x) => JsonV::Object(
            seq![
                ("kind"@, JsonV::Text("auth_webhook"@)),
                ("id"@, JsonV::Text(x.id@)),
                ("timestamp"@, JsonV::Text(x.timestamp.0@)),
                ("url"@, spec_opt_text_json(x.url)),
                ("req"@, crate::json::json_view(x.req)),
                ("res"@, spec_opt_json_json(x.res)),
            ] + spec_path_entries(x.path),
        ),
        Message::Cluster(x) => JsonV::Object(
            seq![
                ("kind"@, JsonV::Text("cluster"@)),
                ("id"@, JsonV::Text(x.id@)),
                ("level"@, JsonV::Text(spec_level_name(x.level))),
                ("msg"@, JsonV::Text(x.msg@)),
                ("domain"@, JsonV::Array(spec_texts(x.domain@))),
                ("sora_version"@, JsonV::Text(x.sora_version@)),
                ("node"@, JsonV::Text(x.node@)),
                ("timestamp"@, JsonV::Text(x.timestamp.0@)),
                ("testcase"@, spec_opt_text_json(x.testcase)),
            ] + spec_path_entries(x.path),
        ),
        Message::Connection(x) => JsonV::Object(
            seq![
                ("kind"@, JsonV::Text("connection"@)),
                ("timestamp"@, JsonV::Text(x.timestamp.0@)),
                ("created_timestamp"@, JsonV::Text(x.created_timestamp.0@)),
                ("destroyed_timestamp"@, JsonV::Text(x.destroyed_timestamp.0@)),
                ("channel_id"@, JsonV::Text(x.channel_id@)),
                ("session_id"@, JsonV::Text(x.session_id@)),
                ("client_id"@, JsonV::Text(x.client_id@)),
                ("bundle_id"@, JsonV::Text(x.bundle_id@)),
                ("connection_id"@, JsonV::Text(x.connection_id@)),
                ("role"@, JsonV::Text(x.role@)),
                ("turn_transport_type"@, JsonV::Text(x.turn_transport_type@)),
                ("simulcast"@, JsonV::Bool(x.simulcast)),
                ("spotlight"@, JsonV::Bool(x.spotlight)),
                ("multistream"@, JsonV::Bool(x.multistream)),
                ("data_channel_signaling"@, JsonV::Bool(x.data_channel_signaling)),
                ("ignore_disconnect_websocket"@, JsonV::Bool(x.ignore_disconnect_websocket)),
                ("recording_block"@, JsonV::Bool(x.recording_block)),
                ("stats_exporter"@, JsonV::Bool(x.stats_exporter)),
                ("e2ee"@, JsonV::Bool(x.e2ee)),
                ("destroyed_reason"@, JsonV::Text(x.destroyed_reason@)),
                ("disconnect_api_reason"@, spec_opt_json_json(x.disconnect_api_reason)),
                ("data_channel_exit_reason"@, spec_opt_text_json(x.data_channel_exit_reason)),
                ("signaling_terminate_reason"@, JsonV::Text(x.signaling_terminate_reason@)),
                ("audio"@, crate::json::json_view(x.audio)),
                ("video"@, crate::json::json_view(x.video)),
                ("sora_client"@, crate::json::json_view(x.sora_client)),
                ("local_stats"@, crate::json::json_view(x.local_stats)),
            ] + spec_path_entries(x.path),
        ),
        Message::Crash(x) => JsonV::Object(
            seq![
                ("kind"@, JsonV::Text("crash"@)),
                ("raw"@, JsonV::Text(x.raw@)),
                ("path"@, JsonV::Text(x.path@)),
            ],
        ),
        Message::Debug(x) => spec_generic_json("debug"@, x),
        Message::EventWebhook(x) => spec_generic_json("event_webhook"@, x),
        Message::EventWebhookError(x) => spec_generic_json("event_webhook_error"@, x),
        Message::Internal(x) => spec_generic_json("internal"@, x),
        Message::SessionWebhook(x) => spec_generic_json("session_webhook"@, x),
        Message::SessionWebhookError(x) => spec_generic_json("session_webhook_error"@, x),
        Message::Signaling(x) => spec_generic_json("signaling"@, x),
        Message::Sora(x) => spec_generic_json("sora"@, x),
        Message::StatsWebhook(x) => spec_generic_json("stats_webhook"@, x),
        Message::StatsWebhookError(x) => spec_generic_json("stats_webhook_error"@, x),
    }
}

/// The JSON form of a generic record: the kind tag, the path when it was
/// injected, then the record's own key set.
pub open spec fn spec_generic_json(kind_name: Seq<char>, x: JsonlMessage) -> JsonV {
    JsonV::Object(
        seq![("kind"@, JsonV::Text(kind_name))] + spec_path_entries(x.path)
            + crate::json::json_map_view(x.fields@),
    )
}

/// A list of strings as a JSON array.
fn texts_to_json(v: &Vec<String>) -> (r: Json)
    ensures
        crate::json::json_view(r) == JsonV::Array(spec_texts(v@)),
{
    let mut out: Vec<Json> = Vec::new();
    let mut i: usize = 0;
    while i < v.len()
        invariant
            i <= v.len(),
            out@.len() == i,
            forall|k: int| 0 <= k < i ==> crate::json::json_view(#[trigger] out@[k])
                == JsonV::Text(v@[k]@),
        decreases v.len() - i,
    {
        out.push(Json::Text(v[i].clone()));
        i = i + 1;
    }
    proof {
        crate::json::lemma_json_seq_view(out@);
        assert(crate::json::json_seq_view(out@) =~= spec_texts(v@));
    }
    Json::Array(out)
}

impl Message {
    /// The record as the JSON value the output stream carries.
    #[verifier::rlimit(100)]
    pub fn to_json(&self) -> (r: Json)
        ensures
            r@ == spec_message_json(*self),
    {
        match self {
            Message::Api(x) => {
                let mut e: Vec<(String, Json)> = Vec::new();
                e.push((String::from_str("kind"), Json::Text(String::from_str("api"))));
                e.push((String::from_str("timestamp"), Json::Text(x.timestamp.0.clone())));
                e.push((String::from_str("operation"), Json::Text(x.operation.clone())));
                e.push((String::from_str("json"), crate::json::clone_json(&x.json)));
                match &x.path {
                    Some(p) => {
                        e.push((String::from_str("path"), Json::Text(p.clone())));
                    },
                    None => {},
                }
                proof {
                    crate::json::lemma_json_map_view(e@);
                    assert(crate::json::json_map_view(e@) =~= spec_message_json(*self)->Object_0);
                }
                Json::Object(e)
            },
            Message::AuthWebhook(x) => {
                let mut e: Vec<(String, Json)> = Vec::new();
                e.push((String::from_str("kind"), Json::Text(String::from_str("auth_webhook"))));
                e.push((String::from_str("id"), Json::Text(x.id.clone())));
                e.push((String::from_str("timestamp"), Json::Text(x.timestamp.0.clone())));
                match &x.url {
                    Some(u) => {
                        e.push((String::from_str("url"), Json::Text(u.clone())));
                    },
                    None => {
                        e.push((String::from_str("url"), Json::Null));
                    },
                }
                e.push((String::from_str("req"), crate::json::clone_json(&x.req)));
                match &x.res {
                    Some(v) => {
                        e.push((String::from_str("res"), crate::json::clone_json(v)));
                    },
                    None => {
                        e.push((String::from_str("res"), Json::Null));
                    },
                }
                match &x.path {
                    Some(p) => {
                        e.push((String::from_str("path"), Json::Text(p.clone())));
                    },
                    None => {},
                }
                proof {
                    crate::json::lemma_json_map_view(e@);
                    assert(crate::json::json_map_view(e@) =~= spec_message_json(*self)->Object_0);
                }
                Json::Object(e)
            },
            Message::Cluster(x) => {
                let mut e: Vec<(String, Json)> = Vec::new();
                e.push((String::from_str("kind"), Json::Text(String::from_str("cluster"))));
                e.push((String::from_str("id"), Json::Text(x.id.clone())));
                e.push((String::from_str("level"), Json::Text(x.level.name())));
                e.push((String::from_str("msg"), Json::Text(x.msg.clone())));
                e.push((String::from_str("domain"), texts_to_json(&x.domain)));
                e.push((String::from_str("sora_version"), Json::Text(x.sora_version.clone())));
                e.push((String::from_str("node"), Json::Text(x.node.clone())));
                e.push((String::from_str("timestamp"), Json::Text(x.timestamp.0.clone())));
                match &x.testcase {
                    Some(t) => {
                        e.push((String::from_str("testcase"), Json::Text(t.clone())));
                    },
                    None => {
                        e.push((String::from_str("testcase"), Json::Null));
                    },
                }
                match &x.path {
                    Some(p) => {
                        e.push((String::from_str("path"), Json::Text(p.clone())));
                    },
                    None => {},
                }
                proof {
                    crate::json::lemma_json_map_view(e@);
                    assert(crate::json::json_map_view(e@) =~= spec_message_json(*self)->Object_0);
                }
                Json::Object(e)
            },
            Message::Connection(x) => {
                let mut e: Vec<(String, Json)> = Vec::new();
                e.push((String::from_str("kind"), Json::Text(String::from_str("connection"))));
                e.push((String::from_str("timestamp"), Json::Text(x.timestamp.0.clone())));
                e.push(
                    (String::from_str("created_timestamp"), Json::Text(x.created_timestamp.0.clone())),
                );
                e.push(
                    (
                        String::from_str("destroyed_timestamp"),
                        Json::Text(x.destroyed_timestamp.0.clone()),
                    ),
                );
                e.push((String::from_str("channel_id"), Json::Text(x.channel_id.clone())));
                e.push((String::from_str("session_id"), Json::Text(x.session_id.clone())));
                e.push((String::from_str("client_id"), Json::Text(x.client_id.clone())));
                e.push((String::from_str("bundle_id"), Json::Text(x.bundle_id.clone())));
                e.push((String::from_str("connection_id"), Json::Text(x.connection_id.clone())));
                e.push((String::from_str("role"), Json::Text(x.role.clone())));
                e.push(
                    (String::from_str("turn_transport_type"), Json::Text(x.turn_transport_type.clone())),
                );
                e.push((String::from_str("simulcast"), Json::Bool(x.simulcast)));
                e.push((String::from_str("spotlight"), Json::Bool(x.spotlight)));
                e.push((String::from_str("multistream"), Json::Bool(x.multistream)));
                e.push(
                    (String::from_str("data_channel_signaling"), Json::Bool(x.data_channel_signaling)),
                );
                e.push(
                    (
                        String::from_str("ignore_disconnect_websocket"),
                        Json::Bool(x.ignore_disconnect_websocket),
                    ),
                );
                e.push((String::from_str("recording_block"), Json::Bool(x.recording_block)));
                e.push((String::from_str("stats_exporter"), Json::Bool(x.stats_exporter)));
                e.push((String::from_str("e2ee"), Json::Bool(x.e2ee)));
                e.push((String::from_str("destroyed_reason"), Json::Text(x.destroyed_reason.clone())));
                match &x.disconnect_api_reason {
                    Some(v) => {
                        e.push(
                            (String::from_str("disconnect_api_reason"), crate::json::clone_json(v)),
                        );
                    },
                    None => {
                        e.push((String::from_str("disconnect_api_reason"), Json::Null));
                    },
                }
                match &x.data_channel_exit_reason {
                    Some(t) => {
                        e.push((String::from_str("data_channel_exit_reason"), Json::Text(t.clone())));
                    },
                    None => {
                        e.push((String::from_str("data_channel_exit_reason"), Json::Null));
                    },
                }
                e.push(
                    (
                        String::from_str("signaling_terminate_reason"),
                        Json::Text(x.signaling_terminate_reason.clone()),
                    ),
                );
                e.push((String::from_str("audio"), crate::json::clone_json(&x.audio)));
                e.push((String::from_str("video"), crate::json::clone_json(&x.video)));
                e.push((String::from_str("sora_client"), crate::json::clone_json(&x.sora_client)));
                e.push((String::from_str("local_stats"), crate::json::clone_json(&x.local_stats)));
                match &x.path {
                    Some(p) => {
                        e.push((String::from_str("path"), Json::Text(p.clone())));
                    },
                    None => {},
                }
                proof {
                    crate::json::lemma_json_map_view(e@);
                    assert(crate::json::json_map_view(e@) =~= spec_message_json(*self)->Object_0);
                }
                Json::Object(e)
            },
            Message::Crash(x) => {
                let mut e: Vec<(String, Json)> = Vec::new();
                e.push((String::from_str("kind"), Json::Text(String::from_str("crash"))));
                e.push((String::from_str("raw"), Json::Text(x.raw.clone())));
                e.push((String::from_str("path"), Json::Text(x.path.clone())));
                proof {
                    crate::json::lemma_json_map_view(e@);
                    assert(crate::json::json_map_view(e@) =~= spec_message_json(*self)->Object_0);
                }
                Json::Object(e)
            },
            Message::Debug(x) => generic_to_json("debug", x),
            Message::EventWebhook(x) => generic_to_json("event_webhook", x),
            Message::EventWebhookError(x) => generic_to_json("event_webhook_error", x),
            Message::Internal(x) => generic_to_json("internal", x),
            Message::SessionWebhook(x) => generic_to_json("session_webhook", x),
            Message::SessionWebhookError(x) => generic_to_json("session_webhook_error", x),
            Message::Signaling(x) => generic_to_json("signaling", x),
            Message::Sora(x) => generic_to_json("sora", x),
            Message::StatsWebhook(x) => generic_to_json("stats_webhook", x),
            Message::StatsWebhookError(x) => generic_to_json("stats_webhook_error", x),
        }
    }
}

/// The JSON form of a generic record under its kind's name.
#[verifier::loop_isolation(false)]
#[verifier::rlimit(100)]
fn generic_to_json(kind_name: &str, x: &JsonlMessage) -> (r: Json)
    ensures
        r@ == spec_generic_json(kind_name@, *x),
{
    let mut e: Vec<(String, Json)> = Vec::new();
    e.push((String::from_str("kind"), Json::Text(kind_name.to_owned())));
    match &x.path {
        Some(p) => {
            e.push((String::from_str("path"), Json::Text(p.clone())));
        },
        None => {},
    }
    let ghost head_vals = e@;
    let hlen = e.len();
    let mut i: usize = 0;
    while i < x.fields.len()
        invariant
            i <= x.fields@.len(),
            e@.len() == hlen + i,
            e@.take(hlen as int) == head_vals,
            forall|k: int| 0 <= k < i ==> (#[trigger] e@[hlen + k]).0@ == x.fields@[k].0@
                && crate::json::json_view(e@[hlen + k].1) == crate::json::json_view(
                x.fields@[k].1,
            ),
        decreases x.fields@.len() - i,
    {
        let en = &x.fields[i];
        e.push((en.0.clone(), crate::json::clone_json(&en.1)));
        proof {
            assert(e@.take(hlen as int) =~= head_vals);
        }
        i = i + 1;
    }
    proof {
        crate::json::lemma_json_map_view(e@);
        crate::json::lemma_json_map_view(x.fields@);
        assert forall|k: int| 0 <= k < hlen implies e@[k] == head_vals[k] by {
            assert(e@.take(hlen as int)[k] == e@[k]);
        }
        let rhs = seq![("kind"@, JsonV::Text(kind_name@))] + spec_path_entries(x.path)
            + crate::json::json_map_view(x.fields@);
        assert(crate::json::json_map_view(e@).len() == rhs.len());
        assert forall|k: int| 0 <= k < rhs.len() implies crate::json::json_map_view(e@)[k]
            == rhs[k] by {
            assert(crate::json::json_map_view(e@)[k] == (e@[k].0@, crate::json::json_view(
                e@[k].1,
            )));
            if k < hlen {
                assert(e@[k] == head_vals[k]);
            } else {
                let k2 = k - hlen;
                assert(e@[hlen + k2].0@ == x.fields@[k2].0@ && crate::json::json_view(
                    e@[hlen + k2].1,
                ) == crate::json::json_view(x.fields@[k2].1));
                assert(hlen + k2 == k);
                assert(rhs[k] == crate::json::json_map_view(x.fields@)[k2]);
            }
        }
        assert(crate::json::json_map_view(e@) =~= rhs);
    }
    Json::Object(e)
}


/// The kind a record tag names, if any.
pub open spec fn spec_parse_kind_name(s: Seq<char>) -> Option<MessageKind> {
    if s == "api"@ {
        Some(MessageKind::Api)
    } else if s == "auth_webhook"@ {
        Some(MessageKind::AuthWebhook)
    } else if s == "auth_webhook_error"@ {
        Some(MessageKind::AuthWebhookError)
    } else if s == "cluster"@ {
        Some(MessageKind::Cluster)
    } else if s == "connection"@ {
        Some(MessageKind::Connection)
    } else if s == "crash"@ {
        Some(MessageKind::Crash)
    } else if s == "debug"@ {
        Some(MessageKind::Debug)
    } else if s == "event_webhook"@ {
        Some(MessageKind::EventWebhook)
    } else if s == "event_webhook_error"@ {
        Some(MessageKind::EventWebhookError)
    } else if s == "internal"@ {
        Some(MessageKind::Internal)
    } else if s == "session_webhook"@ {
        Some(MessageKind::SessionWebhook)
    } else if s == "session_webhook_error"@ {
        Some(MessageKind::SessionWebhookError)
    } else if s == "signaling"@ {
        Some(MessageKind::Signaling)
    } else if s == "sora"@ {
        Some(MessageKind::Sora)
    } else if s == "stats_webhook"@ {
        Some(MessageKind::StatsWebhook)
    } else if s == "stats_webhook_error"@ {
        Some(MessageKind::StatsWebhookError)
    } else {
        None
    }
}

impl MessageKind {
    /// Reads a kind from its output name.
    pub fn parse_name(s: &str) -> (r: Option<MessageKind>)
        ensures
            r == spec_parse_kind_name(s@),
    {
        if str_eq(s, "api") {
            Some(MessageKind::Api)
        } else if str_eq(s, "auth_webhook") {
            Some(MessageKind::AuthWebhook)
        } else if str_eq(s, "auth_webhook_error") {
            Some(MessageKind::AuthWebhookError)
        } else if str_eq(s, "cluster") {
            Some(MessageKind::Cluster)
        } else if str_eq(s, "connection") {
            Some(MessageKind::Connection)
        } else if str_eq(s, "crash") {
            Some(MessageKind::Crash)
        } else if str_eq(s, "debug") {
            Some(MessageKind::Debug)
        } else if str_eq(s, "event_webhook") {
            Some(MessageKind::EventWebhook)
        } else if str_eq(s, "event_webhook_error") {
            Some(MessageKind::EventWebhookError)
        } else if str_eq(s, "internal") {
            Some(MessageKind::Internal)
        } else if str_eq(s, "session_webhook") {
            Some(MessageKind::SessionWebhook)
        } else if str_eq(s, "session_webhook_error") {
            Some(MessageKind::SessionWebhookError)
        } else if str_eq(s, "signaling") {
            Some(MessageKind::Signaling)
        } else if str_eq(s, "sora") {
            Some(MessageKind::Sora)
        } else if str_eq(s, "stats_webhook") {
            Some(MessageKind::StatsWebhook)
        } else if str_eq(s, "stats_webhook_error") {
            Some(MessageKind::StatsWebhookError)
        } else {
            None
        }
    }
}

/// The kind tag a streamed record carries.
pub open spec fn spec_stream_kind(mv: Seq<(Seq<char>, JsonV)>) -> Option<MessageKind> {
    match crate::json::spec_lookup(mv, "kind"@) {
        Some(JsonV::Text(s)) => spec_parse_kind_name(s),
        _ => None,
    }
}

/// The path a streamed record carries, if any.
pub open spec fn spec_stream_path(mv: Seq<(Seq<char>, JsonV)>) -> Option<Seq<char>> {
    match crate::json::spec_lookup(mv, "path"@) {
        Some(JsonV::Text(s)) => Some(s),
        _ => None,
    }
}

/// The entries of a streamed generic record that belong to its key set:
/// everything but the consumed `kind` tag and `path`.
pub open spec fn spec_stream_fields(mv: Seq<(Seq<char>, JsonV)>) -> Seq<(Seq<char>, JsonV)>
    decreases mv.len(),
{
    if mv.len() == 0 {
        mv
    } else if mv.last().0 == "kind"@ || mv.last().0 == "path"@ {
        spec_stream_fields(mv.drop_last())
    } else {
        spec_stream_fields(mv.drop_last()).push(mv.last())
    }
}

/// Keeps the entries that belong to a generic record's own key set.
#[verifier::loop_isolation(false)]
fn strip_stream_keys(fields: Vec<(String, Json)>) -> (r: Vec<(String, Json)>)
    ensures
        crate::json::json_map_view(r@) == spec_stream_fields(
            crate::json::json_map_view(fields@),
        ),
{
    proof {
        crate::json::lemma_json_map_view(fields@);
    }
    let ghost mv = crate::json::json_map_view(fields@);
    let mut out: Vec<(String, Json)> = Vec::new();
    let mut fields = fields;
    let n0 = fields.len();
    let mut k: usize = 0;
    proof {
        assert(mv.take(0) =~= Seq::<(Seq<char>, JsonV)>::empty());
        assert(spec_stream_fields(mv.take(0)) =~= Seq::<(Seq<char>, JsonV)>::empty());
        assert(crate::json::json_map_view(out@) =~= Seq::<(Seq<char>, JsonV)>::empty());
        assert(crate::json::json_map_view(fields@) =~= mv.skip(0));
    }
    while fields.len() > 0
        invariant
            k <= mv.len(),
            mv.len() == n0,
            crate::json::json_map_view(fields@) =~= mv.skip(k as int),
            crate::json::json_map_view(out@) =~= spec_stream_fields(mv.take(k as int)),
        decreases fields@.len(),
    {
        proof {
            crate::json::lemma_json_map_view(fields@);
            assert(fields@.len() == mv.skip(k as int).len());
            assert(k < mv.len());
        }
        let ghost prev = fields@;
        let ghost out_prev = out@;
        let e = fields.remove(0);
        proof {
            crate::json::lemma_json_map_view(prev);
            crate::json::lemma_json_map_view(fields@);
            assert(fields@ =~= prev.drop_first());
            assert forall|i: int| 0 <= i < fields@.len() implies crate::json::json_map_view(
                fields@,
            )[i] == mv.skip(k as int + 1)[i] by {
                assert(crate::json::json_map_view(fields@)[i] == (
                    fields@[i].0@,
                    crate::json::json_view(fields@[i].1),
                ));
                assert(fields@[i] == prev[i + 1]);
                assert(crate::json::json_map_view(prev)[i + 1] == (
                    prev[i + 1].0@,
                    crate::json::json_view(prev[i + 1].1),
                ));
                assert(crate::json::json_map_view(prev)[i + 1] == mv.skip(k as int)[i + 1]);
                assert(mv.skip(k as int)[i + 1] == mv[k + 1 + i]);
                assert(mv.skip(k as int + 1)[i] == mv[k + 1 + i]);
            }
            assert(crate::json::json_map_view(fields@) =~= mv.skip(k as int + 1));
        }
        let keep = !(crate::text::str_eq(e.0.as_str(), "kind") || crate::text::str_eq(
            e.0.as_str(),
            "path",
        ));
        proof {
            assert(crate::json::json_map_view(prev)[0] == mv.skip(k as int)[0]);
            assert(mv.skip(k as int)[0] == mv[k as int]);
            assert((e.0@, crate::json::json_view(e.1)) == mv[k as int]);
            assert(mv.take(k as int + 1).drop_last() =~= mv.take(k as int));
            assert(mv.take(k as int + 1).last() == mv[k as int]);
        }
        if keep {
            out.push(e);
            proof {
                crate::json::lemma_json_map_view(out_prev);
                crate::json::lemma_json_map_view(out@);
                assert(out@ =~= out_prev.push((e.0, e.1)));
                assert(spec_stream_fields(mv.take(k as int + 1)) =~= spec_stream_fields(
                    mv.take(k as int),
                ).push(mv[k as int]));
                assert forall|i: int| 0 <= i < out@.len() implies crate::json::json_map_view(
                    out@,
                )[i] == spec_stream_fields(mv.take(k as int + 1))[i] by {
                    if i < out_prev.len() {
                        assert(out@[i] == out_prev[i]);
                        assert(crate::json::json_map_view(out_prev)[i] == (
                            out_prev[i].0@,
                            crate::json::json_view(out_prev[i].1),
                        ));
                    } else {
                        assert(out@[i] == (e.0, e.1));
                    }
                }
                assert(crate::json::json_map_view(out@) =~= spec_stream_fields(
                    mv.take(k as int + 1),
                ));
            }
        } else {
            proof {
                assert(spec_stream_fields(mv.take(k as int + 1)) =~= spec_stream_fields(
                    mv.take(k as int),
                ));
            }
        }
        k = k + 1;
    }
    proof {
        assert(mv.take(mv.len() as int) =~= mv);
    }
    out
}

/// What reading one streamed record back must produce, for each shape
/// of the incoming value: a non-object or an unusable `kind` tag is the
/// matching error; a known tag picks the schema, whose fields and the
/// stream's own `path` entry pin the record exactly; failures name the
/// offending field.
pub open spec fn spec_stream_outcome(
    source: Seq<char>,
    jv: JsonV,
    r: Result<Message, ParseError>,
) -> bool {
    match jv {
        JsonV::Object(mv) => match spec_stream_kind(mv) {
            Some(kind) => {
                if kind == MessageKind::AuthWebhookError {
                    match r {
                        Err(ParseError::UnsupportedKind { path: p }) => p@ == source,
                        _ => false,
                    }
                } else if kind == MessageKind::Crash {
                    match r {
                        Ok(m) => match m {
                            Message::Crash(cm) => {
                                &&& crate::json::spec_lookup(mv, "raw"@) == Some(
                                    JsonV::Text(cm.raw@),
                                )
                                &&& crate::json::spec_lookup(mv, "path"@) == Some(
                                    JsonV::Text(cm.path@),
                                )
                            },
                            _ => false,
                        },
                        Err(e) => !(spec_has_text(mv, "raw"@) && spec_has_text(mv, "path"@))
                            && spec_field_err(mv, source, e),
                    }
                } else if kind == MessageKind::Api {
                    match r {
                        Ok(m) => match m {
                            Message::Api(am) => spec_api_core(mv, am) && str_opt_view(am.path)
                                == spec_stream_path(mv),
                            _ => false,
                        },
                        Err(e) => !(spec_opt_text_ok(mv, "path"@) && spec_api_wf(mv))
                            && spec_field_err(mv, source, e),
                    }
                } else if kind == MessageKind::AuthWebhook {
                    match r {
                        Ok(m) => match m {
                            Message::AuthWebhook(am) => spec_auth_webhook_core(mv, am)
                                && str_opt_view(am.path) == spec_stream_path(mv),
                            _ => false,
                        },
                        Err(e) => !(spec_opt_text_ok(mv, "path"@) && spec_auth_webhook_wf(mv))
                            && spec_field_err(mv, source, e),
                    }
                } else if kind == MessageKind::Cluster {
                    match r {
                        Ok(m) => match m {
                            Message::Cluster(am) => spec_cluster_core(mv, am) && str_opt_view(
                                am.path,
                            ) == spec_stream_path(mv),
                            _ => false,
                        },
                        Err(e) => !(spec_opt_text_ok(mv, "path"@) && spec_cluster_wf(mv))
                            && spec_field_err(mv, source, e),
                    }
                } else if kind == MessageKind::Connection {
                    match r {
                        Ok(m) => match m {
                            Message::Connection(am) => spec_connection_core(mv, am)
                                && str_opt_view(am.path) == spec_stream_path(mv),
                            _ => false,
                        },
                        Err(e) => !(spec_opt_text_ok(mv, "path"@) && spec_connection_wf(mv))
                            && spec_field_err(mv, source, e),
                    }
                } else {
                    match r {
                        Ok(m) => {
                            &&& spec_kind(m) == kind
                            &&& match spec_generic_message(m) {
                                Some(g) => {
                                    &&& crate::json::json_map_view(g.fields@)
                                        == spec_stream_fields(mv)
                                    &&& str_opt_view(g.path) == spec_stream_path(mv)
                                },
                                None => false,
                            }
                        },
                        Err(e) => !spec_opt_text_ok(mv, "path"@) && spec_field_err(
                            mv,
                            source,
                            e,
                        ),
                    }
                }
            },
            None => match r {
                Err(ParseError::MissingField { path: p, field: f }) => p@ == source && f@
                    == "kind"@ && crate::json::spec_lookup(mv, "kind"@) is None,
                Err(ParseError::WrongFieldType { path: p, field: f }) => p@ == source && f@
                    == "kind"@ && crate::json::spec_lookup(mv, "kind"@) is Some,
                _ => false,
            },
        },
        _ => match r {
            Err(ParseError::NotAnObject { path: p }) => p@ == source,
            _ => false,
        },
    }
}

/// Reads one record back from the tagged JSON form the streams carry:
/// the `kind` tag picks the schema, a `path` entry restores the record's
/// origin, and for a generic kind the remaining keys form the record.
/// `source` only labels errors.
#[verifier::rlimit(100)]
pub fn message_from_json(source: &str, j: Json) -> (r: Result<Message, ParseError>)
    ensures
        spec_stream_outcome(source@, j@, r),
{
    let fields = match j {
        Json::Object(fields) => fields,
        _ => {
            return Err(ParseError::NotAnObject { path: source.to_owned() });
        },
    };
    let kind = match crate::json::lookup(&fields, "kind") {
        Some(Json::Text(s)) => match MessageKind::parse_name(s.as_str()) {
            Some(k) => k,
            None => {
                return Err(
                    ParseError::WrongFieldType {
                        path: source.to_owned(),
                        field: String::from_str("kind"),
                    },
                );
            },
        },
        Some(_) => {
            return Err(
                ParseError::WrongFieldType {
                    path: source.to_owned(),
                    field: String::from_str("kind"),
                },
            );
        },
        None => {
            return Err(
                ParseError::MissingField {
                    path: source.to_owned(),
                    field: String::from_str("kind"),
                },
            );
        },
    };
    if matches!(kind, MessageKind::AuthWebhookError) {
        return Err(ParseError::UnsupportedKind { path: source.to_owned() });
    }
    if matches!(kind, MessageKind::Crash) {
        let raw = match req_text(&fields, "raw", source) {
            Ok(s) => s,
            Err(e) => {
                return Err(e);
            },
        };
        let path = match req_text(&fields, "path", source) {
            Ok(s) => s,
            Err(e) => {
                return Err(e);
            },
        };
        return Ok(Message::Crash(CrashMessage { raw, path }));
    }
    let px = match opt_text(&fields, "path", source) {
        Ok(o) => o,
        Err(e) => {
            return Err(e);
        },
    };
    match kind {
        MessageKind::Api => match ApiMessage::from_fields(source, &fields) {
            Ok(m) => {
                let mut m = m;
                m.path = px;
                Ok(Message::Api(m))
            },
            Err(e) => Err(e),
        },
        MessageKind::AuthWebhook => match AuthWebhookMessage::from_fields(source, &fields) {
            Ok(m) => {
                let mut m = m;
                m.path = px;
                Ok(Message::AuthWebhook(m))
            },
            Err(e) => Err(e),
        },
        MessageKind::Cluster => match ClusterMessage::from_fields(source, &fields) {
            Ok(m) => {
                let mut m = m;
                m.path = px;
                Ok(Message::Cluster(m))
            },
            Err(e) => Err(e),
        },
        MessageKind::Connection => match ConnectionMessage::from_fields(source, &fields) {
            Ok(m) => {
                let mut m = m;
                m.path = px;
                Ok(Message::Connection(m))
            },
            Err(e) => Err(e),
        },
        _ => {
            let fields = strip_stream_keys(fields);
            let message = JsonlMessage { path: px, fields };
            match kind {
                MessageKind::Debug => Ok(Message::Debug(message)),
                MessageKind::EventWebhook => Ok(Message::EventWebhook(message)),
                MessageKind::EventWebhookError => Ok(Message::EventWebhookError(message)),
                MessageKind::Internal => Ok(Message::Internal(message)),
                MessageKind::SessionWebhook => Ok(Message::SessionWebhook(message)),
                MessageKind::SessionWebhookError => Ok(Message::SessionWebhookError(message)),
                MessageKind::Signaling => Ok(Message::Signaling(message)),
                MessageKind::Sora => Ok(Message::Sora(message)),
                MessageKind::StatsWebhook => Ok(Message::StatsWebhook(message)),
                _ => {
                    proof {
                        assert(kind == MessageKind::StatsWebhookError);
                    }
                    Ok(Message::StatsWebhookError(message))
                },
            }
        },
    }
}

/// Every kind's output name reads back as that kind.
pub proof fn lemma_kind_name_parses(k: MessageKind)
    ensures
        spec_parse_kind_name(spec_kind_name(k)) == Some(k),
{
    reveal_strlit("api");
    reveal_strlit("auth_webhook");
    reveal_strlit("auth_webhook_error");
    reveal_strlit("cluster");
    reveal_strlit("connection");
    reveal_strlit("crash");
    reveal_strlit("debug");
    reveal_strlit("event_webhook");
    reveal_strlit("event_webhook_error");
    reveal_strlit("internal");
    reveal_strlit("session_webhook");
    reveal_strlit("session_webhook_error");
    reveal_strlit("signaling");
    reveal_strlit("sora");
    reveal_strlit("stats_webhook");
    reveal_strlit("stats_webhook_error");
    assert(("api"@).len() == 3);
    assert(("auth_webhook"@).len() == 12);
    assert(("auth_webhook_error"@).len() == 18);
    assert(("cluster"@).len() == 7);
    assert(("connection"@).len() == 10);
    assert(("crash"@).len() == 5);
    assert(("debug"@).len() == 5);
    assert(("event_webhook"@).len() == 13);
    assert(("event_webhook_error"@).len() == 19);
    assert(("internal"@).len() == 8);
    assert(("session_webhook"@).len() == 15);
    assert(("session_webhook_error"@).len() == 21);
    assert(("signaling"@).len() == 9);
    assert(("sora"@).len() == 4);
    assert(("stats_webhook"@).len() == 13);
    assert(("stats_webhook_error"@).len() == 19);
    assert(("crash"@)[0] == 'c');
    assert(("debug"@)[0] == 'd');
    assert(("event_webhook"@)[0] == 'e');
    assert(("stats_webhook"@)[0] == 's');
    assert(("event_webhook_error"@)[0] == 'e');
    assert(("stats_webhook_error"@)[0] == 's');
    match k {
        MessageKind::Api => {},
        MessageKind::AuthWebhook => {},
        MessageKind::AuthWebhookError => {},
        MessageKind::Cluster => {},
        MessageKind::Connection => {},
        MessageKind::Crash => {},
        MessageKind::Debug => {},
        MessageKind::EventWebhook => {},
        MessageKind::EventWebhookError => {},
        MessageKind::Internal => {},
        MessageKind::SessionWebhook => {},
        MessageKind::SessionWebhookError => {},
        MessageKind::Signaling => {},
        MessageKind::Sora => {},
        MessageKind::StatsWebhook => {},
        MessageKind::StatsWebhookError => {},
    }
}

proof fn lemma_stream_fields_clean(
    prefix: Seq<(Seq<char>, JsonV)>,
    tail: Seq<(Seq<char>, JsonV)>,
)
    requires
        forall|i: int| 0 <= i < tail.len() ==> (#[trigger] tail[i]).0 != "kind"@ && tail[i].0
            != "path"@,
    ensures
        spec_stream_fields(prefix + tail) == spec_stream_fields(prefix) + tail,
    decreases tail.len(),
{
    if tail.len() == 0 {
        assert(prefix + tail =~= prefix);
        assert(spec_stream_fields(prefix) + tail =~= spec_stream_fields(prefix));
    } else {
        assert((prefix + tail).last() == tail.last());
        assert((prefix + tail).drop_last() =~= prefix + tail.drop_last());
        assert(forall|i: int| 0 <= i < tail.drop_last().len() ==> #[trigger] tail.drop_last()[i]
            == tail[i]);
        lemma_stream_fields_clean(prefix, tail.drop_last());
        assert((spec_stream_fields(prefix) + tail.drop_last()).push(tail.last())
            =~= spec_stream_fields(prefix) + tail);
    }
}

/// Reading back what a generic record serializes to recovers the record:
/// over the entries its JSON form lays out, the stream reader finds the
/// record's kind, the record's path, and exactly the record's own key
/// set — provided that key set does not itself use the reserved `kind`
/// and `path` names, which the serialized form claims for the tag and
/// the origin.
pub proof fn lemma_generic_round_trip(kind: MessageKind, g: JsonlMessage)
    requires
        spec_is_generic_kind(kind),
        forall|i: int| 0 <= i < crate::json::json_map_view(g.fields@).len() ==> ((
        #[trigger] crate::json::json_map_view(g.fields@)[i]).0 != "kind"@
            && crate::json::json_map_view(g.fields@)[i].0 != "path"@),
    ensures
        match spec_generic_json(spec_kind_name(kind), g) {
            JsonV::Object(mv) => {
                &&& spec_stream_kind(mv) == Some(kind)
                &&& spec_stream_path(mv) == str_opt_view(g.path)
                &&& spec_stream_fields(mv) == crate::json::json_map_view(g.fields@)
            },
            _ => false,
        },
{
    reveal_strlit("kind");
    reveal_strlit("path");
    assert(("kind"@).len() == 4);
    assert(("path"@).len() == 4);
    assert(("kind"@)[0] == 'k');
    assert(("path"@)[0] == 'p');
    lemma_kind_name_parses(kind);
    let fv = crate::json::json_map_view(g.fields@);
    let head = seq![("kind"@, JsonV::Text(spec_kind_name(kind)))] + spec_path_entries(g.path);
    let mv = head + fv;
    assert(seq![("kind"@, JsonV::Text(spec_kind_name(kind)))] + spec_path_entries(g.path) + fv
        =~= mv);
    assert(mv[0] == ("kind"@, JsonV::Text(spec_kind_name(kind))));
    assert(crate::json::spec_lookup(mv, "kind"@) == Some(JsonV::Text(spec_kind_name(kind))))
        by {
        assert(mv.drop_first() =~= mv.skip(1));
    }
    match g.path {
        Some(p) => {
            assert(mv[1] == ("path"@, JsonV::Text(p@)));
            assert(mv.drop_first() =~= spec_path_entries(g.path) + fv);
            assert((spec_path_entries(g.path) + fv)[0] == ("path"@, JsonV::Text(p@)));
            assert(crate::json::spec_lookup(mv, "path"@) == Some(JsonV::Text(p@)));
            assert(spec_stream_path(mv) == Some(p@));
        },
        None => {
            assert(head =~= seq![("kind"@, JsonV::Text(spec_kind_name(kind)))]);
            assert(mv.drop_first() =~= fv);
            lemma_lookup_clean(fv, "path"@);
            assert(crate::json::spec_lookup(mv, "path"@) is None);
            assert(spec_stream_path(mv) is None);
        },
    }
    lemma_stream_fields_clean(head, fv);
    let ks = seq![("kind"@, JsonV::Text(spec_kind_name(kind)))];
    assert(spec_stream_fields(Seq::<(Seq<char>, JsonV)>::empty()) =~= Seq::<(
        Seq<char>,
        JsonV,
    )>::empty());
    assert(ks.last().0 == "kind"@);
    assert(ks.drop_last() =~= Seq::<(Seq<char>, JsonV)>::empty());
    assert(spec_stream_fields(ks) =~= Seq::<(Seq<char>, JsonV)>::empty());
    assert(spec_stream_fields(head) =~= Seq::<(Seq<char>, JsonV)>::empty()) by {
        match g.path {
            Some(p) => {
                assert(head.last().0 == "path"@);
                assert(head.drop_last() =~= ks);
                assert(spec_stream_fields(head.drop_last()) == spec_stream_fields(ks));
            },
            None => {
                assert(head =~= ks);
            },
        }
    }
    assert(spec_stream_fields(mv) =~= fv);
}

proof fn lemma_lookup_clean(entries: Seq<(Seq<char>, JsonV)>, key: Seq<char>)
    requires
        forall|i: int| 0 <= i < entries.len() ==> (#[trigger] entries[i]).0 != key,
    ensures
        crate::json::spec_lookup(entries, key) is None,
    decreases entries.len(),
{
    if entries.len() > 0 {
        assert(forall|i: int| 0 <= i < entries.drop_first().len() ==> #[trigger] entries.drop_first()[i]
            == entries[i + 1]);
        lemma_lookup_clean(entries.drop_first(), key);
    }
}

/// Two field values carry the same shape of value.
pub open spec fn spec_same_shape(a: FieldValueV, b: FieldValueV) -> bool {
    match (a, b) {
        (FieldValueV::String(_), FieldValueV::String(_)) => true,
        (FieldValueV::Kind(_), FieldValueV::Kind(_)) => true,
        (FieldValueV::Level(_), FieldValueV::Level(_)) => true,
        (FieldValueV::Json(_), FieldValueV::Json(_)) => true,
        (FieldValueV::Path(_), FieldValueV::Path(_)) => true,
        _ => false,
    }
}

/// A field name fixes the shape of its value: whatever records two
/// answers come from, they carry the same shape.
#[verifier::rlimit(100)]
pub proof fn lemma_field_shape(m1: Message, m2: Message, f: FieldName)
    ensures
        match (spec_field_value(m1, f), spec_field_value(m2, f)) {
            (Some(a), Some(b)) => spec_same_shape(a, b),
            _ => true,
        },
{
    match f {
        FieldName::Kind => {},
        FieldName::Level => {},
        FieldName::Timestamp => {},
        FieldName::Operation => {},
        FieldName::Json => {},
        FieldName::Path => {},
        FieldName::Msg => {},
        FieldName::MsgTag => {},
        FieldName::Url => {},
        FieldName::Req => {},
        FieldName::Res => {},
    }
}

/// The field-value order is transitive among values of one shape, and a
/// strict step keeps the combined step strict.
pub proof fn lemma_fv_cmp_trans(a: FieldValueV, b: FieldValueV, c: FieldValueV)
    requires
        spec_same_shape(a, b),
        spec_same_shape(b, c),
        spec_fv_cmp(a, b) != Ordering::Greater,
        spec_fv_cmp(b, c) != Ordering::Greater,
    ensures
        spec_fv_cmp(a, c) != Ordering::Greater,
        spec_fv_cmp(a, b) == Ordering::Less || spec_fv_cmp(b, c) == Ordering::Less
            ==> spec_fv_cmp(a, c) == Ordering::Less,
{
    match (a, b, c) {
        (FieldValueV::String(x), FieldValueV::String(y), FieldValueV::String(z)) => {
            crate::text::lemma_lex_trans(x, y, z);
        },
        (FieldValueV::Path(x), FieldValueV::Path(y), FieldValueV::Path(z)) => {
            crate::text::lemma_lex_trans(x, y, z);
        },
        (FieldValueV::Kind(_), FieldValueV::Kind(_), FieldValueV::Kind(_)) => {},
        (FieldValueV::Level(_), FieldValueV::Level(_), FieldValueV::Level(_)) => {},
        (FieldValueV::Json(_), FieldValueV::Json(_), FieldValueV::Json(_)) => {
            crate::text::lemma_lex_trans(spec_render(a), spec_render(b), spec_render(c));
        },
        _ => {
            assert(false);
        },
    }
}

} // verus!
