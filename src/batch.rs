//! Scheduling of a batch of conversions: when to run them concurrently, the
//! admission gate that bounds how many run at once, and the tally of
//! outcomes. The caller performs each conversion and reports its outcome.
use vstd::prelude::*;

verus! {

/// How a batch is processed.
#[derive(Debug, Clone, Copy, PartialEq, Eq, Structural)]
pub enum BatchMode {
    Sequential,
    Parallel,
}

/// Concurrent only when there is more than one component and more than one slot.
pub fn batch_mode(count: usize, parallel: usize) -> (r: BatchMode)
    ensures
        r == (if count > 1 && parallel > 1 { BatchMode::Parallel } else { BatchMode::Sequential }),
{
    if count > 1 && parallel > 1 {
        BatchMode::Parallel
    } else {
        BatchMode::Sequential
    }
}

/// The counts of a batch run.
pub struct RunModel {
    /// How many conversions may run at once.
    pub capacity: nat,
    /// How many components the batch holds.
    pub total: nat,
    /// How many conversions were admitted so far.
    pub started: nat,
    /// How many admitted conversions have not finished.
    pub in_flight: nat,
    pub succeeded: nat,
    pub failed: nat,
}

/// What happens in a batch run: a conversion is admitted, or one finishes
/// with the given outcome (`true` for success).
pub enum RunEvent {
    Start,
    Finish(bool),
}

/// A run that has admitted nothing yet.
pub open spec fn initial(total: nat, capacity: nat) -> RunModel {
    RunModel { capacity, total, started: 0, in_flight: 0, succeeded: 0, failed: 0 }
}

/// The counts after one event. A start is admitted only while components
/// remain and a slot is free; a finish needs a conversion in flight. An event
/// that is not allowed changes nothing.
pub open spec fn apply(m: RunModel, e: RunEvent) -> RunModel {
    match e {
        RunEvent::Start => if m.started < m.total && m.in_flight < m.capacity {
            RunModel { started: m.started + 1, in_flight: m.in_flight + 1, ..m }
        } else {
            m
        },
        RunEvent::Finish(ok) => if m.in_flight > 0 {
            RunModel {
                in_flight: (m.in_flight - 1) as nat,
                succeeded: if ok { m.succeeded + 1 } else { m.succeeded },
                failed: if ok { m.failed } else { m.failed + 1 },
                ..m
            }
        } else {
            m
        },
    }
}

/// The counts after a sequence of events.
pub open spec fn run_events(m: RunModel, evs: Seq<RunEvent>) -> RunModel
    decreases evs.len(),
{
    if evs.len() == 0 {
        m
    } else {
        run_events(apply(m, evs[0]), evs.drop_first())
    }
}

/// The counts agree with each other.
pub open spec fn consistent(m: RunModel) -> bool {
    &&& m.in_flight <= m.capacity
    &&& m.started <= m.total
    &&& m.succeeded + m.failed + m.in_flight == m.started
}

proof fn lemma_run_consistent(m: RunModel, evs: Seq<RunEvent>)
    requires
        consistent(m),
    ensures
        consistent(run_events(m, evs)),
        run_events(m, evs).capacity == m.capacity,
        run_events(m, evs).total == m.total,
        (forall|i: int| 0 <= i < evs.len() ==> evs[i] != RunEvent::Finish(false)) ==> run_events(
            m,
            evs,
        ).failed == m.failed,
    decreases evs.len(),
{
    if evs.len() > 0 {
        let rest = evs.drop_first();
        if forall|i: int| 0 <= i < evs.len() ==> evs[i] != RunEvent::Finish(false) {
            assert forall|i: int| 0 <= i < rest.len() implies rest[i] != RunEvent::Finish(false) by {
                assert(rest[i] == evs[i + 1]);
            }
            assert(evs[0] != RunEvent::Finish(false));
        }
        lemma_run_consistent(apply(m, evs[0]), rest);
    }
}

/// In a batch of `total` components with `capacity` slots whose conversions
/// all succeed, no more than `capacity` conversions are ever in flight, none
/// fails, and once every component was admitted and none is in flight, all
/// `total` succeeded.
pub proof fn lemma_all_succeed(total: nat, capacity: nat, evs: Seq<RunEvent>)
    requires
        forall|i: int| 0 <= i < evs.len() ==> evs[i] != RunEvent::Finish(false),
    ensures
        forall|k: int|
            0 <= k <= evs.len() ==> #[trigger] run_events(initial(total, capacity), evs.take(k)).in_flight
                <= capacity,
        run_events(initial(total, capacity), evs).failed == 0,
        ({
            let f = run_events(initial(total, capacity), evs);
            f.started == total && f.in_flight == 0 ==> f.succeeded == total
        }),
{
    let m = initial(total, capacity);
    assert forall|k: int|
        0 <= k <= evs.len() implies #[trigger] run_events(m, evs.take(k)).in_flight <= capacity by {
        lemma_run_consistent(m, evs.take(k));
    }
    lemma_run_consistent(m, evs);
}

/// A batch run in progress: the admission gate and the tally.
pub struct BatchRun {
    capacity: usize,
    total: usize,
    started: usize,
    in_flight: usize,
    succeeded: usize,
    failed_ids: Vec<String>,
}

impl BatchRun {
    /// The counts of the run.
    pub closed spec fn view(&self) -> RunModel {
        RunModel {
            capacity: self.capacity as nat,
            total: self.total as nat,
            started: self.started as nat,
            in_flight: self.in_flight as nat,
            succeeded: self.succeeded as nat,
            failed: self.failed_ids@.len(),
        }
    }

    /// The identifiers whose conversion failed, in the order reported.
    pub closed spec fn failures(&self) -> Seq<Seq<char>> {
        self.failed_ids.deep_view()
    }

    /// The counts agree with each other.
    pub open spec fn wf(&self) -> bool {
        consistent(self@) && self@.failed == self.failures().len()
    }

    /// A run of `total` components, at most `capacity` of them at once.
    pub fn new(total: usize, capacity: usize) -> (r: BatchRun)
        ensures
            r@ == initial(total as nat, capacity as nat),
            r.wf(),
            r.failures() == Seq::<Seq<char>>::empty(),
    {
        let r = BatchRun {
            capacity,
            total,
            started: 0,
            in_flight: 0,
            succeeded: 0,
            failed_ids: Vec::new(),
        };
        assert(r.failed_ids.deep_view() =~= Seq::<Seq<char>>::empty());
        r
    }

    /// Admits the next component where one remains and a slot is free, and
    /// returns its index in the batch.
    pub fn start(&mut self) -> (r: Option<usize>)
        requires
            old(self).wf(),
        ensures
            final(self).wf(),
            final(self)@ == apply(old(self)@, RunEvent::Start),
            final(self).failures() == old(self).failures(),
            r == (if old(self)@.started < old(self)@.total && old(self)@.in_flight < old(
                self,
            )@.capacity {
                Some(old(self)@.started as usize)
            } else {
                None
            }),
    {
        if self.started < self.total && self.in_flight < self.capacity {
            let i = self.started;
            self.started = self.started + 1;
            self.in_flight = self.in_flight + 1;
            Some(i)
        } else {
            None
        }
    }

    /// Records that an admitted conversion finished: a success, or a failure
    /// of the component `id`. Frees its slot.
    pub fn finish(&mut self, id: &str, ok: bool)
        requires
            old(self).wf(),
            old(self)@.in_flight > 0,
        ensures
            final(self).wf(),
            final(self)@ == apply(old(self)@, RunEvent::Finish(ok)),
            final(self).failures() == (if ok {
                old(self).failures()
            } else {
                old(self).failures().push(id@)
            }),
    {
        self.in_flight = self.in_flight - 1;
        if ok {
            self.succeeded = self.succeeded + 1;
        } else {
            let ghost before = self.failed_ids.deep_view();
            self.failed_ids.push(id.to_string());
            assert(self.failed_ids.deep_view() =~= before.push(id@));
        }
    }

    /// Every component was admitted and none is in flight.
    pub fn is_done(&self) -> (r: bool)
        ensures
            r == (self@.started == self@.total && self@.in_flight == 0),
    {
        self.started == self.total && self.in_flight == 0
    }

    /// How many components the batch holds.
    pub fn total(&self) -> (r: usize)
        ensures
            r == self@.total,
    {
        self.total
    }

    /// How many conversions succeeded.
    pub fn success_count(&self) -> (r: usize)
        ensures
            r == self@.succeeded,
    {
        self.succeeded
    }

    /// How many conversions failed.
    pub fn failure_count(&self) -> (r: usize)
        ensures
            r == self@.failed,
    {
        self.failed_ids.len()
    }

    /// The identifiers whose conversion failed, in the order reported.
    pub fn failed_ids(&self) -> (r: Vec<String>)
        ensures
            r.deep_view() == self.failures(),
    {
        let mut out: Vec<String> = Vec::new();
        let mut i: usize = 0;
        while i < self.failed_ids.len()
            invariant
                i <= self.failed_ids.len(),
                out.deep_view() =~= self.failed_ids.deep_view().subrange(0, i as int),
            decreases self.failed_ids.len() - i,
        {
            let ghost before = out.deep_view();
            out.push(self.failed_ids[i].clone());
            assert(out.deep_view() =~= before.push(self.failed_ids.deep_view()[i as int]));
            assert(self.failed_ids.deep_view().subrange(0, i + 1) =~= self.failed_ids.deep_view().subrange(0, i as int).push(self.failed_ids.deep_view()[i as int]));
            i = i + 1;
        }
        proof {
            assert(self.failed_ids.deep_view().subrange(0, i as int) =~= self.failed_ids.deep_view());
        }
        out
    }
}

/// What a sequential run does after a conversion.
#[derive(Debug, Clone, Copy, PartialEq, Eq, Structural)]
pub enum SequentialStep {
    Continue,
    Abort,
}

/// A sequential run goes on after a success, and after a failure only when
/// asked to continue on errors.
pub fn after_conversion(ok: bool, continue_on_error: bool) -> (r: SequentialStep)
    ensures
        r == (if ok || continue_on_error { SequentialStep::Continue } else { SequentialStep::Abort }),
{
    if ok || continue_on_error {
        SequentialStep::Continue
    } else {
        SequentialStep::Abort
    }
}

} // verus!
