//! The orchestrator's bookkeeping: one probe per target, admitted through a
//! counting gate with `limit` slots, each target yielding exactly one
//! result whether its probe succeeded or failed. `ScanRun` is that state;
//! every transition keeps it well-formed, and well-formedness bounds the
//! probes in flight by `limit` and makes the result count equal the target
//! count when the run ends.

use vstd::prelude::*;

use crate::report::ScanResult;

verus! {

/// The state of one scan run.
pub struct ScanRun {
    /// The admission gate's size: how many probes may be in flight at once.
    pub limit: usize,
    /// How many targets the run was given.
    pub total: usize,
    /// How many probes have been admitted so far.
    pub started: usize,
    /// How many probes have recorded their result.
    pub finished: usize,
    /// The results recorded so far, one per finished probe.
    pub results: Vec<ScanResult>,
}

impl ScanRun {
    /// The invariant every transition keeps: the result count equals
    /// `finished`, probes finish only after being admitted, at most `total`
    /// probes are ever admitted, and at most `limit` are in flight.
    pub open spec fn wf(self) -> bool {
        &&& self.finished <= self.started <= self.total
        &&& self.results@.len() == self.finished
        &&& self.started - self.finished <= self.limit
    }

    /// How many probes are in flight.
    pub open spec fn in_flight(self) -> int {
        self.started - self.finished
    }

    /// True once every target has its result.
    pub open spec fn done(self) -> bool {
        self.finished == self.total
    }

    /// A run over `total` targets with at most `limit` probes in flight.
    pub fn new(limit: usize, total: usize) -> (r: ScanRun)
        ensures
            r.wf(),
            r.limit == limit,
            r.total == total,
            r.started == 0,
            r.finished == 0,
            r.results@.len() == 0,
    {
        ScanRun { limit, total, started: 0, finished: 0, results: Vec::new() }
    }

    /// Admits one more probe exactly when a slot is free and a target
    /// remains; admission never pushes the number in flight past the limit.
    pub fn try_admit(&mut self) -> (admitted: bool)
        requires
            old(self).wf(),
        ensures
            final(self).wf(),
            admitted == (old(self).started < old(self).total && old(self).in_flight() < old(
                self,
            ).limit),
            final(self).started == if admitted {
                old(self).started + 1
            } else {
                old(self).started as int
            },
            final(self).finished == old(self).finished,
            final(self).limit == old(self).limit,
            final(self).total == old(self).total,
            final(self).results == old(self).results,
            final(self).in_flight() <= final(self).limit,
    {
        if self.started < self.total && self.started - self.finished < self.limit {
            self.started = self.started + 1;
            true
        } else {
            false
        }
    }

    /// Records the one result of a probe that was admitted and finished —
    /// a failure result as much as a success.
    pub fn record(&mut self, result: ScanResult)
        requires
            old(self).wf(),
            old(self).finished < old(self).started,
        ensures
            final(self).wf(),
            final(self).finished == old(self).finished + 1,
            final(self).results@ == old(self).results@.push(result),
            final(self).started == old(self).started,
            final(self).limit == old(self).limit,
            final(self).total == old(self).total,
            final(self).in_flight() == old(self).in_flight() - 1,
    {
        self.results.push(result);
        self.finished = self.finished + 1;
    }
}

/// Law: in every well-formed state — and every transition above keeps the
/// state well-formed — the number of probes in flight is at most the
/// configured limit, whatever the target list was.
pub proof fn lemma_concurrency_bounded(run: ScanRun)
    requires
        run.wf(),
    ensures
        run.in_flight() <= run.limit,
{
}

/// Law: once a well-formed run is done, exactly one result stands per input
/// target — for the empty target list too, where the run is done at once.
pub proof fn lemma_one_result_per_target(run: ScanRun)
    requires
        run.wf(),
        run.done(),
    ensures
        run.results@.len() == run.total,
{
}

} // verus!
