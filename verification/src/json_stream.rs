//! The output-stream policy.
//!
//! Writing records to a downstream consumer can end three ways per
//! record: the write went through, the consumer had closed its end, or
//! the stream failed outright.  A closed consumer is a normal end of
//! output, never an error; everything else propagates.  The model here
//! fixes that policy; the loop that performs the writes lives with the
//! rest of the I/O, outside this library, and consults
//! [`ignore_broken_pipe`] after every write.

use vstd::prelude::*;

verus! {

/// How one write to the output ended.
#[derive(Debug)]
pub enum WriteOutcome {
    /// The record was written.
    Done,
    /// The consumer closed its end of the stream.
    BrokenPipe,
    /// The stream failed, with the failure's description.
    Failed(String),
}

/// Turns one write outcome into the loop's decision: `Ok(false)` to go
/// on, `Ok(true)` to stop quietly, `Err` to abort.
pub fn ignore_broken_pipe(outcome: WriteOutcome) -> (r: Result<bool, String>)
    ensures
        match outcome {
            WriteOutcome::Done => r == Result::<bool, String>::Ok(false),
            WriteOutcome::BrokenPipe => r == Result::<bool, String>::Ok(true),
            WriteOutcome::Failed(e) => r == Result::<bool, String>::Err(e),
        },
{
    match outcome {
        WriteOutcome::Done => Ok(false),
        WriteOutcome::BrokenPipe => Ok(true),
        WriteOutcome::Failed(e) => Err(e),
    }
}

/// What a write loop over these outcomes does under the policy: how many
/// records it writes before it stops, or the position of the failure
/// that aborts it.
pub open spec fn spec_write_run(outcomes: Seq<WriteOutcome>) -> Result<int, int>
    decreases outcomes.len(),
{
    if outcomes.len() == 0 {
        Ok(0)
    } else {
        match outcomes[0] {
            WriteOutcome::Done => match spec_write_run(outcomes.drop_first()) {
                Ok(n) => Ok(n + 1),
                Err(i) => Err(i + 1),
            },
            WriteOutcome::BrokenPipe => Ok(0),
            WriteOutcome::Failed(_) => Err(0),
        }
    }
}

/// A consumer that closes after `k` records ends the loop quietly: the
/// loop writes exactly the `k` records and reports success, not failure.
pub proof fn lemma_broken_pipe_tolerated(outcomes: Seq<WriteOutcome>, k: int)
    requires
        0 <= k < outcomes.len(),
        outcomes[k] is BrokenPipe,
        forall|j: int| 0 <= j < k ==> (#[trigger] outcomes[j]) is Done,
    ensures
        spec_write_run(outcomes) == Ok::<int, int>(k),
    decreases k,
{
    if k == 0 {
    } else {
        assert(outcomes[0] is Done);
        assert(outcomes.drop_first()[k - 1] is BrokenPipe);
        assert(forall|j: int| 0 <= j < k - 1 ==> (#[trigger] outcomes.drop_first()[j])
            == outcomes[j + 1]);
        lemma_broken_pipe_tolerated(outcomes.drop_first(), k - 1);
    }
}

/// A run whose writes all go through writes everything.
pub proof fn lemma_all_written(outcomes: Seq<WriteOutcome>)
    requires
        forall|j: int| 0 <= j < outcomes.len() ==> (#[trigger] outcomes[j]) is Done,
    ensures
        spec_write_run(outcomes) == Ok::<int, int>(outcomes.len() as int),
    decreases outcomes.len(),
{
    if outcomes.len() > 0 {
        assert(forall|j: int| 0 <= j < outcomes.drop_first().len() ==> (
        #[trigger] outcomes.drop_first()[j]) == outcomes[j + 1]);
        lemma_all_written(outcomes.drop_first());
    }
}

} // verus!
