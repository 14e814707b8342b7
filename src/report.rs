use vstd::prelude::*;
use crate::stats::{
    LatencySummary, SummaryModel, combine, empty_model, model_wf, lemma_combine_wf,
    lemma_merge_order_free, throughput_per_sec,
};
use crate::task::{ConnectionTask, Failure, TaskView};

verus! {

/// Counts and latencies of a group of finished connection tasks.
pub struct TotalsModel {
    pub tasks: nat,
    pub setup_failures: nat,
    pub request_failures: nat,
    pub attempted: nat,
    pub latency: SummaryModel,
}

pub open spec fn empty_totals() -> TotalsModel {
    TotalsModel { tasks: 0, setup_failures: 0, request_failures: 0, attempted: 0, latency: empty_model() }
}

/// The totals of a single task.
pub open spec fn task_totals(v: TaskView) -> TotalsModel {
    TotalsModel {
        tasks: 1,
        setup_failures: if v.failure == Some(Failure::Connect) || v.failure == Some(Failure::Handshake) {
            1
        } else {
            0
        },
        request_failures: if v.failure == Some(Failure::Request) { 1 } else { 0 },
        attempted: v.attempted,
        latency: v.latency,
    }
}

/// The totals of two disjoint groups of tasks.
pub open spec fn combine_totals(a: TotalsModel, b: TotalsModel) -> TotalsModel {
    TotalsModel {
        tasks: a.tasks + b.tasks,
        setup_failures: a.setup_failures + b.setup_failures,
        request_failures: a.request_failures + b.request_failures,
        attempted: a.attempted + b.attempted,
        latency: combine(a.latency, b.latency),
    }
}

/// Totals that a group of tasks can have: no more samples than attempts,
/// and no more failed tasks than tasks.
pub open spec fn totals_wf(m: TotalsModel) -> bool {
    &&& model_wf(m.latency)
    &&& m.latency.count <= m.attempted
    &&& m.setup_failures + m.request_failures <= m.tasks
}

pub open spec fn totals_fit(m: TotalsModel) -> bool {
    &&& m.tasks <= u64::MAX
    &&& m.setup_failures <= u64::MAX
    &&& m.request_failures <= u64::MAX
    &&& m.attempted <= u64::MAX
}

/// Merging the totals of workers, or of tasks, is associative and
/// commutative, so the final report does not depend on the order in which
/// workers finish; merged totals keep samples within attempts.
pub proof fn lemma_totals_merge_order_free(a: TotalsModel, b: TotalsModel, c: TotalsModel)
    requires
        totals_wf(a),
        totals_wf(b),
        totals_wf(c),
    ensures
        combine_totals(combine_totals(a, b), c) == combine_totals(a, combine_totals(b, c)),
        combine_totals(a, b) == combine_totals(b, a),
        combine_totals(a, empty_totals()) == a,
        totals_wf(combine_totals(a, b)),
{
    lemma_merge_order_free(a.latency, b.latency, c.latency);
    lemma_merge_order_free(b.latency, c.latency, a.latency);
    lemma_combine_wf(a.latency, b.latency);
    let ab = combine(a.latency, b.latency);
    if a.latency.count > 0 && b.latency.count > 0 {
        assert(ab.count == a.latency.count + b.latency.count);
    }
}

/// The counts and merged latencies of a worker's tasks, or of a whole run.
#[derive(Clone, Copy, Debug)]
pub struct RunTotals {
    tasks: u64,
    setup_failures: u64,
    request_failures: u64,
    attempted: u64,
    latency: LatencySummary,
}

impl View for RunTotals {
    type V = TotalsModel;

    closed spec fn view(&self) -> TotalsModel {
        TotalsModel {
            tasks: self.tasks as nat,
            setup_failures: self.setup_failures as nat,
            request_failures: self.request_failures as nat,
            attempted: self.attempted as nat,
            latency: self.latency@,
        }
    }
}

/// The summary printed at the end of a run.
#[derive(Clone, Copy, Debug, PartialEq, Eq)]
pub struct Report {
    pub successful: u64,
    pub attempted: u64,
    pub tasks: u64,
    pub setup_failures: u64,
    pub request_failures: u64,
    pub elapsed_ns: u64,
    pub requests_per_sec: u128,
    pub mean_ns: u64,
    pub min_ns: u64,
    pub max_ns: u64,
}

impl RunTotals {
    pub closed spec fn wf(&self) -> bool {
        totals_wf(self@) && self.latency.wf()
    }

    /// Totals of no task.
    pub fn new() -> (r: RunTotals)
        ensures
            r.wf(),
            r@ == empty_totals(),
    {
        RunTotals { tasks: 0, setup_failures: 0, request_failures: 0, attempted: 0, latency: LatencySummary::new() }
    }

    /// Adds `other`'s totals; returns false, changing nothing, if a count
    /// would overflow.
    pub fn merge(&mut self, other: &RunTotals) -> (r: bool)
        requires
            old(self).wf(),
            other.wf(),
        ensures
            final(self).wf(),
            r == totals_fit(combine_totals(old(self)@, other@)),
            r ==> final(self)@ == combine_totals(old(self)@, other@),
            !r ==> final(self)@ == old(self)@,
    {
        if self.tasks > u64::MAX - other.tasks || self.setup_failures > u64::MAX - other.setup_failures
            || self.request_failures > u64::MAX - other.request_failures || self.attempted > u64::MAX
            - other.attempted {
            return false;
        }
        proof {
            lemma_combine_wf(self@.latency, other@.latency);
            let m = combine(self@.latency, other@.latency);
            if self@.latency.count > 0 && other@.latency.count > 0 {
                assert(m.count == self@.latency.count + other@.latency.count);
            }
        }
        self.latency.merge(&other.latency);
        self.tasks = self.tasks + other.tasks;
        self.setup_failures = self.setup_failures + other.setup_failures;
        self.request_failures = self.request_failures + other.request_failures;
        self.attempted = self.attempted + other.attempted;
        true
    }

    /// Adds one task's outcome; returns false, changing nothing, if a count
    /// would overflow.
    pub fn add_task(&mut self, task: &ConnectionTask) -> (r: bool)
        requires
            old(self).wf(),
            task.wf(),
        ensures
            final(self).wf(),
            r == totals_fit(combine_totals(old(self)@, task_totals(task@))),
            r ==> final(self)@ == combine_totals(old(self)@, task_totals(task@)),
            !r ==> final(self)@ == old(self)@,
    {
        proof {
            task.lemma_view_wf();
            crate::task::lemma_samples_within_attempts(task@, true, true, 0);
        }
        let failure = task.failure();
        let setup: u64 = match failure {
            Some(f) => if f.is_setup() { 1 } else { 0 },
            None => 0,
        };
        let request: u64 = match failure {
            Some(f) => if f.is_setup() { 0 } else { 1 },
            None => 0,
        };
        let one = RunTotals {
            tasks: 1,
            setup_failures: setup,
            request_failures: request,
            attempted: task.attempted(),
            latency: task.latency(),
        };
        assert(one@ == task_totals(task@));
        self.merge(&one)
    }

    pub fn tasks(&self) -> (r: u64)
        ensures
            r == self@.tasks,
    {
        self.tasks
    }

    pub fn attempted(&self) -> (r: u64)
        ensures
            r == self@.attempted,
    {
        self.attempted
    }

    pub fn setup_failures(&self) -> (r: u64)
        ensures
            r == self@.setup_failures,
    {
        self.setup_failures
    }

    pub fn request_failures(&self) -> (r: u64)
        ensures
            r == self@.request_failures,
    {
        self.request_failures
    }

    pub fn latency(&self) -> (r: LatencySummary)
        requires
            self.wf(),
        ensures
            r@ == self@.latency,
            r.wf(),
    {
        self.latency
    }

    /// The final report for a run that took `elapsed_ns` nanoseconds.
    pub fn report(&self, elapsed_ns: u64) -> (r: Report)
        requires
            self.wf(),
        ensures
            r.successful == self@.latency.count,
            r.attempted == self@.attempted,
            r.successful <= r.attempted,
            r.tasks == self@.tasks,
            r.setup_failures == self@.setup_failures,
            r.request_failures == self@.request_failures,
            r.elapsed_ns == elapsed_ns,
            elapsed_ns == 0 ==> r.requests_per_sec == 0,
            elapsed_ns > 0 ==> r.requests_per_sec == (r.successful as nat * 1_000_000_000) / (
            elapsed_ns as nat),
            self@.latency.count == 0 ==> r.mean_ns == 0,
            self@.latency.count > 0 ==> r.mean_ns == self@.latency.total / self@.latency.count,
            r.min_ns == self@.latency.min,
            r.max_ns == self@.latency.max,
    {
        let successful = self.latency.count();
        Report {
            successful,
            attempted: self.attempted,
            tasks: self.tasks,
            setup_failures: self.setup_failures,
            request_failures: self.request_failures,
            elapsed_ns,
            requests_per_sec: throughput_per_sec(successful, elapsed_ns),
            mean_ns: self.latency.mean_ns(),
            min_ns: self.latency.min_ns(),
            max_ns: self.latency.max_ns(),
        }
    }
}

} // verus!
