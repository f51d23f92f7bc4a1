//! Filtering records by severity.

use vstd::prelude::*;
use crate::message::LogLevel;
use crate::message::Message;
use crate::message::spec_level_index;
use crate::message::spec_message_level;

verus! {

/// Keeps the records at or above a level, or all of them when no level
/// is given.
#[derive(Debug)]
pub struct FilterCommand {
    pub level: Option<LogLevel>,
}

/// Whether the command keeps a record.
pub open spec fn spec_keeps(cmd: FilterCommand, m: Message) -> bool {
    match cmd.level {
        Some(l) => spec_level_index(spec_message_level(m)) >= spec_level_index(l),
        None => true,
    }
}

/// The subsequence of records the command keeps, in input order.
pub open spec fn spec_kept(cmd: FilterCommand, s: Seq<Message>) -> Seq<Message>
    decreases s.len(),
{
    if s.len() == 0 {
        s
    } else if spec_keeps(cmd, s.last()) {
        spec_kept(cmd, s.drop_last()).push(s.last())
    } else {
        spec_kept(cmd, s.drop_last())
    }
}

impl FilterCommand {
    /// Whether this record passes the filter.
    pub fn filter(&self, message: &Message) -> (r: bool)
        ensures
            r == spec_keeps(*self, *message),
    {
        match self.level {
            Some(l) => message.level().index() >= l.index(),
            None => true,
        }
    }

    /// The records that pass the filter, in input order.
    #[verifier::loop_isolation(false)]
    pub fn filter_messages(&self, msgs: Vec<Message>) -> (r: Vec<Message>)
        ensures
            r@ == spec_kept(*self, msgs@),
    {
        let mut out: Vec<Message> = Vec::new();
        let mut msgs = msgs;
        let n0 = msgs.len();
        let ghost orig = msgs@;
        proof {
            assert(orig.len() == n0);
        }
        let mut k: usize = 0;
        proof {
            assert(orig.take(0) =~= Seq::<Message>::empty());
            assert(orig.skip(0) =~= orig);
        }
        while msgs.len() > 0
            invariant
                k <= orig.len(),
                orig.len() == n0,
                msgs@ == orig.skip(k as int),
                out@ == spec_kept(*self, orig.take(k as int)),
            decreases msgs@.len(),
        {
            proof {
                assert(k < orig.len());
            }
            let m = msgs.remove(0);
            proof {
                assert(m == orig[k as int]);
                assert(orig.skip(k as int).remove(0) =~= orig.skip(k as int + 1));
                assert(orig.take(k as int + 1).drop_last() =~= orig.take(k as int));
                assert(orig.take(k as int + 1).last() == orig[k as int]);
            }
            if self.filter(&m) {
                out.push(m);
            }
            k = k + 1;
        }
        proof {
            assert(orig.take(k as int) =~= orig);
        }
        out
    }
}

} // verus!
