//! The Submission Driver: tracks the strictly sequential hand-over of
//! batches to the ingestion client. The driver decides which batch may be
//! submitted next; the caller performs the call and reports its outcome.
//! Any failure is fatal: no later batch is ever offered again.
use vstd::prelude::*;

verus! {

use crate::batch::Batch;

/// Where a run stands: still submitting, done, or stopped at the first
/// failed batch.
#[derive(Clone, Copy, Debug, PartialEq, Eq, Structural)]
pub enum RunOutcome {
    InProgress,
    Complete,
    Failed { batch_index: usize },
}

/// The submission state machine: the batches, the index of the next batch
/// to attempt, and the index of the failed batch, if any.
pub struct SubmissionDriver {
    pub batches: Vec<Batch>,
    pub next: usize,
    pub failure: Option<usize>,
}

impl SubmissionDriver {
    /// The driver's invariant: the cursor never passes the end, and a
    /// recorded failure froze the cursor at the failed batch.
    pub open spec fn wf(self) -> bool {
        &&& self.next <= self.batches@.len()
        &&& self.failure matches Some(i) ==> i == self.next && i < self.batches@.len()
    }

    /// The batch that may be attempted now: the one under the cursor,
    /// unless the run has failed or every batch is done.
    pub open spec fn pending_spec(self) -> Option<usize> {
        if self.failure is None && self.next < self.batches@.len() {
            Some(self.next)
        } else {
            None
        }
    }

    /// The run's state as an outcome value.
    pub open spec fn outcome_spec(self) -> RunOutcome {
        match self.failure {
            Some(i) => RunOutcome::Failed { batch_index: i },
            None => if self.next == self.batches@.len() {
                RunOutcome::Complete
            } else {
                RunOutcome::InProgress
            },
        }
    }

    /// Starts a run over the given batches, none attempted yet.
    pub fn new(batches: Vec<Batch>) -> (s: SubmissionDriver)
        ensures
            s.batches@ == batches@,
            s.next == 0,
            s.failure is None,
            s.wf(),
    {
        SubmissionDriver { batches, next: 0, failure: None }
    }

    /// The index of the batch to submit now, or `None` when the run is
    /// over — completed or failed.
    pub fn pending_batch(&self) -> (r: Option<usize>)
        ensures
            r == self.pending_spec(),
    {
        if self.failure.is_none() && self.next < self.batches.len() {
            Some(self.next)
        } else {
            None
        }
    }

    /// Read access to a batch, for the caller that performs the call.
    pub fn batch_at(&self, i: usize) -> (b: &Batch)
        requires
            i < self.batches@.len(),
        ensures
            *b == self.batches@[i as int],
    {
        &self.batches[i]
    }

    /// How many batches the run holds.
    pub fn batch_count(&self) -> (n: usize)
        ensures
            n == self.batches@.len(),
    {
        self.batches.len()
    }

    /// Records that the pending batch was delivered: the cursor moves to
    /// the next batch.
    pub fn record_success(&mut self)
        requires
            old(self).wf(),
            old(self).pending_spec() is Some,
        ensures
            final(self).wf(),
            final(self).batches@ == old(self).batches@,
            final(self).failure is None,
            final(self).next == old(self).next + 1,
    {
        let n = self.batches.len();
        assert(self.next < n);
        self.next = self.next + 1;
    }

    /// Records that the pending batch failed: the run is over, no batch is
    /// ever offered again, and the outcome names the failed batch.
    pub fn record_failure(&mut self)
        requires
            old(self).wf(),
            old(self).pending_spec() is Some,
        ensures
            final(self).wf(),
            final(self).batches@ == old(self).batches@,
            final(self).next == old(self).next,
            final(self).failure == Some(old(self).next),
            final(self).pending_spec() is None,
            final(self).outcome_spec() == (RunOutcome::Failed { batch_index: old(self).next }),
    {
        self.failure = Some(self.next);
    }

    /// Reports where the run stands.
    pub fn outcome(&self) -> (r: RunOutcome)
        ensures
            r == self.outcome_spec(),
    {
        match self.failure {
            Some(i) => RunOutcome::Failed { batch_index: i },
            None => if self.next == self.batches.len() {
                RunOutcome::Complete
            } else {
                RunOutcome::InProgress
            },
        }
    }
}

/// Law: a failed run is terminal — after a failure, no batch is pending,
/// whatever else the state holds.
pub proof fn lemma_failure_is_terminal(d: SubmissionDriver)
    requires
        d.failure is Some,
    ensures
        d.pending_spec() is None,
{
}

} // verus!
