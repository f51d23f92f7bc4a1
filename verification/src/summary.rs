//! Tallying a whole tree of log files.

use vstd::prelude::*;
use crate::log_file::LogFileKind;
use crate::log_file::spec_lf_index;
use crate::message::LogLevel;
use crate::message::spec_level_index;

verus! {

/// A count one higher, capped at the counter's top.
pub open spec fn spec_tick(n: u64) -> u64 {
    if n < 0xffff_ffff_ffff_ffff {
        (n + 1) as u64
    } else {
        n
    }
}

/// What a walk over the log files found: how many files and records,
/// and how they divide by kind and by level.  The per-kind counts are
/// indexed by the kind's position in the enumeration order, the
/// per-level counts by the level's.
#[derive(Debug)]
pub struct Summary {
    pub files: u64,
    pub files_per_kind: Vec<u64>,
    pub messages: u64,
    pub messages_per_level: Vec<u64>,
    pub messages_per_kind: Vec<u64>,
}

/// A summary's count vectors have one slot per kind and per level.
pub open spec fn spec_summary_wf(s: Summary) -> bool {
    s.files_per_kind@.len() == 16 && s.messages_per_level@.len() == 6
        && s.messages_per_kind@.len() == 16
}

impl Summary {
    /// A summary with nothing counted.
    pub fn new() -> (r: Summary)
        ensures
            spec_summary_wf(r),
            r.files == 0,
            r.messages == 0,
            forall|i: int| 0 <= i < 16 ==> r.files_per_kind@[i] == 0,
            forall|i: int| 0 <= i < 6 ==> r.messages_per_level@[i] == 0,
            forall|i: int| 0 <= i < 16 ==> r.messages_per_kind@[i] == 0,
    {
        let mut files_per_kind: Vec<u64> = Vec::new();
        let mut i: usize = 0;
        while i < 16
            invariant
                i <= 16,
                files_per_kind@.len() == i,
                forall|j: int| 0 <= j < i ==> files_per_kind@[j] == 0,
            decreases 16 - i,
        {
            files_per_kind.push(0);
            i = i + 1;
        }
        let mut messages_per_level: Vec<u64> = Vec::new();
        let mut k: usize = 0;
        while k < 6
            invariant
                k <= 6,
                messages_per_level@.len() == k,
                forall|j: int| 0 <= j < k ==> messages_per_level@[j] == 0,
            decreases 6 - k,
        {
            messages_per_level.push(0);
            k = k + 1;
        }
        let mut messages_per_kind: Vec<u64> = Vec::new();
        let mut q: usize = 0;
        while q < 16
            invariant
                q <= 16,
                messages_per_kind@.len() == q,
                forall|j: int| 0 <= j < q ==> messages_per_kind@[j] == 0,
            decreases 16 - q,
        {
            messages_per_kind.push(0);
            q = q + 1;
        }
        Summary { files: 0, files_per_kind, messages: 0, messages_per_level, messages_per_kind }
    }

    /// Counts one file of the given kind.
    pub fn handle_file(&mut self, kind: LogFileKind)
        requires
            spec_summary_wf(*old(self)),
        ensures
            spec_summary_wf(*final(self)),
            final(self).files == spec_tick(old(self).files),
            final(self).files_per_kind@ == old(self).files_per_kind@.update(
                spec_lf_index(kind),
                spec_tick(old(self).files_per_kind@[spec_lf_index(kind)]),
            ),
            final(self).messages == old(self).messages,
            final(self).messages_per_level@ == old(self).messages_per_level@,
            final(self).messages_per_kind@ == old(self).messages_per_kind@,
    {
        if self.files < 0xffff_ffff_ffff_ffff {
            self.files = self.files + 1;
        }
        let i = kind.index();
        let c = self.files_per_kind[i];
        let bumped = if c < 0xffff_ffff_ffff_ffff {
            c + 1
        } else {
            c
        };
        self.files_per_kind.set(i, bumped);
    }

    /// Counts one record of the given kind and level.
    pub fn handle_message(&mut self, kind: LogFileKind, level: LogLevel)
        requires
            spec_summary_wf(*old(self)),
        ensures
            spec_summary_wf(*final(self)),
            final(self).messages == spec_tick(old(self).messages),
            final(self).messages_per_level@ == old(self).messages_per_level@.update(
                spec_level_index(level),
                spec_tick(old(self).messages_per_level@[spec_level_index(level)]),
            ),
            final(self).messages_per_kind@ == old(self).messages_per_kind@.update(
                spec_lf_index(kind),
                spec_tick(old(self).messages_per_kind@[spec_lf_index(kind)]),
            ),
            final(self).files == old(self).files,
            final(self).files_per_kind@ == old(self).files_per_kind@,
    {
        if self.messages < 0xffff_ffff_ffff_ffff {
            self.messages = self.messages + 1;
        }
        let li = level.index() as usize;
        let lc = self.messages_per_level[li];
        let lb = if lc < 0xffff_ffff_ffff_ffff {
            lc + 1
        } else {
            lc
        };
        self.messages_per_level.set(li, lb);
        let ki = kind.index();
        let kc = self.messages_per_kind[ki];
        let kb = if kc < 0xffff_ffff_ffff_ffff {
            kc + 1
        } else {
            kc
        };
        self.messages_per_kind.set(ki, kb);
    }

    /// The file count of one kind.
    pub fn files_of(&self, kind: LogFileKind) -> (r: u64)
        requires
            spec_summary_wf(*self),
        ensures
            r == self.files_per_kind@[spec_lf_index(kind)],
    {
        self.files_per_kind[kind.index()]
    }

    /// The record count of one kind.
    pub fn messages_of_kind(&self, kind: LogFileKind) -> (r: u64)
        requires
            spec_summary_wf(*self),
        ensures
            r == self.messages_per_kind@[spec_lf_index(kind)],
    {
        self.messages_per_kind[kind.index()]
    }

    /// The record count of one level.
    pub fn messages_of_level(&self, level: LogLevel) -> (r: u64)
        requires
            spec_summary_wf(*self),
        ensures
            r == self.messages_per_level@[spec_level_index(level)],
    {
        self.messages_per_level[level.index() as usize]
    }
}

/// Walks a tree of log files and summarizes what it finds; the walk's
/// I/O is the caller's, the counting is [`Summary`]'s.
#[derive(Debug)]
pub struct SummaryCommand {
    pub root_dir: String,
    pub summary: Summary,
}

impl SummaryCommand {
    /// A summary run rooted at the given directory.
    pub fn new(root_dir: String) -> (r: SummaryCommand)
        ensures
            r.root_dir == root_dir,
            spec_summary_wf(r.summary),
            r.summary.files == 0,
            r.summary.messages == 0,
            forall|i: int| 0 <= i < 16 ==> r.summary.files_per_kind@[i] == 0,
            forall|i: int| 0 <= i < 6 ==> r.summary.messages_per_level@[i] == 0,
            forall|i: int| 0 <= i < 16 ==> r.summary.messages_per_kind@[i] == 0,
    {
        SummaryCommand { root_dir, summary: Summary::new() }
    }
}

} // verus!
