//! Classifying log files and walking a directory tree for them.
//!
//! The iterator here holds the traversal's book-keeping — a stack of
//! paths still to look at and the set already seen, so no path is
//! handed out twice.  Listing a directory's children is the caller's
//! I/O; the caller feeds them back through [`LogFilePathIterator::push_child`].

use vstd::prelude::*;
use crate::message::MessageKind;
use crate::message::spec_classify;
use crate::message::spec_file_name;
use crate::text::str_eq;

verus! {

/// The kind of a log file, one tag per known file name.
#[derive(Debug, Clone, Copy, PartialEq, Eq, Hash, PartialOrd, Ord, Structural)]
pub enum LogFileKind {
    Api,
    AuthWebhook,
    AuthWebhookError,
    Cluster,
    Connection,
    Crash,
    Debug,
    EventWebhook,
    EventWebhookError,
    Internal,
    SessionWebhook,
    SessionWebhookError,
    Signaling,
    Sora,
    StatsWebhook,
    StatsWebhookError,
}

/// The file kind that matches a record kind.
pub open spec fn spec_file_kind_of(k: MessageKind) -> LogFileKind {
    match k {
        MessageKind::Api => LogFileKind::Api,
        MessageKind::AuthWebhook => LogFileKind::AuthWebhook,
        MessageKind::AuthWebhookError => LogFileKind::AuthWebhookError,
        MessageKind::Cluster => LogFileKind::Cluster,
        MessageKind::Connection => LogFileKind::Connection,
        MessageKind::Crash => LogFileKind::Crash,
        MessageKind::Debug => LogFileKind::Debug,
        MessageKind::EventWebhook => LogFileKind::EventWebhook,
        MessageKind::EventWebhookError => LogFileKind::EventWebhookError,
        MessageKind::Internal => LogFileKind::Internal,
        MessageKind::SessionWebhook => LogFileKind::SessionWebhook,
        MessageKind::SessionWebhookError => LogFileKind::SessionWebhookError,
        MessageKind::Signaling => LogFileKind::Signaling,
        MessageKind::Sora => LogFileKind::Sora,
        MessageKind::StatsWebhook => LogFileKind::StatsWebhook,
        MessageKind::StatsWebhookError => LogFileKind::StatsWebhookError,
    }
}

/// The file kind a path classifies to, by its file name.
pub open spec fn spec_file_classify(p: Seq<char>) -> Option<LogFileKind> {
    match spec_classify(spec_file_name(p)) {
        Some(k) => Some(spec_file_kind_of(k)),
        None => None,
    }
}

impl LogFileKind {
    /// Classifies a path by its file name against the fixed table.
    pub fn from_path(path: &str) -> (r: Option<LogFileKind>)
        ensures
            r == spec_file_classify(path@),
    {
        match MessageKind::from_path(path) {
            Some(k) => Some(Self::of_kind(k)),
            None => None,
        }
    }

    /// The file kind that matches a record kind.
    pub fn of_kind(k: MessageKind) -> (r: LogFileKind)
        ensures
            r == spec_file_kind_of(k),
    {
        match k {
            MessageKind::Api => LogFileKind::Api,
            MessageKind::AuthWebhook => LogFileKind::AuthWebhook,
            MessageKind::AuthWebhookError => LogFileKind::AuthWebhookError,
            MessageKind::Cluster => LogFileKind::Cluster,
            MessageKind::Connection => LogFileKind::Connection,
            MessageKind::Crash => LogFileKind::Crash,
            MessageKind::Debug => LogFileKind::Debug,
            MessageKind::EventWebhook => LogFileKind::EventWebhook,
            MessageKind::EventWebhookError => LogFileKind::EventWebhookError,
            MessageKind::Internal => LogFileKind::Internal,
            MessageKind::SessionWebhook => LogFileKind::SessionWebhook,
            MessageKind::SessionWebhookError => LogFileKind::SessionWebhookError,
            MessageKind::Signaling => LogFileKind::Signaling,
            MessageKind::Sora => LogFileKind::Sora,
            MessageKind::StatsWebhook => LogFileKind::StatsWebhook,
            MessageKind::StatsWebhookError => LogFileKind::StatsWebhookError,
        }
    }

    /// The index of this file kind in the enumeration order.
    pub fn index(&self) -> (i: usize)
        ensures
            i == spec_lf_index(*self),
    {
        match self {
            LogFileKind::Api => 0,
            LogFileKind::AuthWebhook => 1,
            LogFileKind::AuthWebhookError => 2,
            LogFileKind::Cluster => 3,
            LogFileKind::Connection => 4,
            LogFileKind::Crash => 5,
            LogFileKind::Debug => 6,
            LogFileKind::EventWebhook => 7,
            LogFileKind::EventWebhookError => 8,
            LogFileKind::Internal => 9,
            LogFileKind::SessionWebhook => 10,
            LogFileKind::SessionWebhookError => 11,
            LogFileKind::Signaling => 12,
            LogFileKind::Sora => 13,
            LogFileKind::StatsWebhook => 14,
            LogFileKind::StatsWebhookError => 15,
        }
    }
}

/// The position of a file kind in the enumeration order.
pub open spec fn spec_lf_index(k: LogFileKind) -> int {
    match k {
        LogFileKind::Api => 0,
        LogFileKind::AuthWebhook => 1,
        LogFileKind::AuthWebhookError => 2,
        LogFileKind::Cluster => 3,
        LogFileKind::Connection => 4,
        LogFileKind::Crash => 5,
        LogFileKind::Debug => 6,
        LogFileKind::EventWebhook => 7,
        LogFileKind::EventWebhookError => 8,
        LogFileKind::Internal => 9,
        LogFileKind::SessionWebhook => 10,
        LogFileKind::SessionWebhookError => 11,
        LogFileKind::Signaling => 12,
        LogFileKind::Sora => 13,
        LogFileKind::StatsWebhook => 14,
        LogFileKind::StatsWebhookError => 15,
    }
}

/// A path is among the visited ones.
pub open spec fn spec_seen(visited: Seq<String>, p: Seq<char>) -> bool {
    exists|i: int| 0 <= i < visited.len() && (#[trigger] visited[i])@ == p
}

/// The book-keeping of a depth-first walk for log files: paths still to
/// look at, and paths already handed out or descended into.
#[derive(Debug)]
pub struct LogFilePathIterator {
    pub stack: Vec<String>,
    pub visited: Vec<String>,
}

impl LogFilePathIterator {
    /// A walk that starts at the given root.
    pub fn new(root_dir: String) -> (r: LogFilePathIterator)
        ensures
            r.stack@.len() == 1,
            r.stack@[0] == root_dir,
            r.visited@.len() == 0,
    {
        let mut stack: Vec<String> = Vec::new();
        stack.push(root_dir);
        LogFilePathIterator { stack, visited: Vec::new() }
    }

    /// The next path to look at, taken off the stack.
    pub fn pop_candidate(&mut self) -> (r: Option<String>)
        ensures
            match r {
                Some(p) => old(self).stack@.len() > 0 && p == old(self).stack@.last()
                    && final(self).stack@ == old(self).stack@.drop_last(),
                None => old(self).stack@.len() == 0 && final(self).stack@ == old(self).stack@,
            },
            final(self).visited@ == old(self).visited@,
    {
        self.stack.pop()
    }

    /// Whether `p` is new; a new path is recorded as visited.
    #[verifier::loop_isolation(false)]
    pub fn mark_visited(&mut self, p: &String) -> (r: bool)
        ensures
            r == !spec_seen(old(self).visited@, p@),
            final(self).stack@ == old(self).stack@,
            final(self).visited@ == if spec_seen(old(self).visited@, p@) {
                old(self).visited@
            } else {
                old(self).visited@.push(*p)
            },
    {
        let n = self.visited.len();
        let mut i: usize = 0;
        while i < n
            invariant
                i <= n,
                n == self.visited@.len(),
                self.visited@ == old(self).visited@,
                self.stack@ == old(self).stack@,
                forall|j: int| 0 <= j < i ==> (#[trigger] self.visited@[j])@ != p@,
            decreases n - i,
        {
            if str_eq(self.visited[i].as_str(), p.as_str()) {
                return false;
            }
            i = i + 1;
        }
        self.visited.push(p.clone());
        true
    }

    /// Adds a directory child to the paths still to look at.
    pub fn push_child(&mut self, p: String)
        ensures
            final(self).stack@ == old(self).stack@.push(p),
            final(self).visited@ == old(self).visited@,
    {
        self.stack.push(p);
    }
}

} // verus!
