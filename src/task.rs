use vstd::prelude::*;
use crate::stats::{LatencySummary, SummaryModel, combine, single_model, model_wf, empty_model};

verus! {

/// Where a connection task stands in its life.
#[derive(PartialEq, Eq, Structural, Clone, Copy, Debug)]
pub enum Phase {
    Connecting,
    Handshaking,
    AwaitingBarrier,
    Looping,
    Done,
}

/// The step at which a task failed.
#[derive(PartialEq, Eq, Structural, Clone, Copy, Debug)]
pub enum Failure {
    Connect,
    Handshake,
    Request,
}

impl Failure {
    /// Whether the task failed before it could send any request.
    pub fn is_setup(&self) -> (r: bool)
        ensures
            r == (*self != Failure::Request),
    {
        !matches!(self, Failure::Request)
    }
}

/// What the task asks its driver to do next.
#[derive(PartialEq, Eq, Structural, Clone, Copy, Debug)]
pub enum Action {
    Connect,
    Handshake,
    AwaitBarrier,
    SendRequest,
    AwaitResponse,
    Finish,
}

/// Abstract state of a connection task.
pub struct TaskView {
    pub phase: Phase,
    pub batch_size: nat,
    pub batch_left: nat,
    pub in_flight: bool,
    pub attempted: nat,
    pub latency: SummaryModel,
    pub failure: Option<Failure>,
}

/// The state in which a task starts.
pub open spec fn initial_view(batch_size: nat) -> TaskView {
    TaskView {
        phase: Phase::Connecting,
        batch_size,
        batch_left: 0,
        in_flight: false,
        attempted: 0,
        latency: empty_model(),
        failure: None,
    }
}

pub open spec fn finished(v: TaskView, failure: Option<Failure>) -> TaskView {
    TaskView { phase: Phase::Done, in_flight: false, failure, ..v }
}

/// The outcome of the connection attempt.
pub open spec fn after_connect(v: TaskView, ok: bool) -> TaskView {
    if v.phase != Phase::Connecting {
        v
    } else if ok {
        TaskView { phase: Phase::Handshaking, ..v }
    } else {
        finished(v, Some(Failure::Connect))
    }
}

/// The outcome of the one-time connection priming.
pub open spec fn after_handshake(v: TaskView, ok: bool) -> TaskView {
    if v.phase != Phase::Handshaking {
        v
    } else if ok {
        TaskView { phase: Phase::AwaitingBarrier, ..v }
    } else {
        finished(v, Some(Failure::Handshake))
    }
}

/// The start barrier let the task through; the first stop check comes at once.
pub open spec fn after_release(v: TaskView) -> TaskView {
    if v.phase != Phase::AwaitingBarrier {
        v
    } else {
        TaskView { phase: Phase::Looping, batch_left: 0, ..v }
    }
}

/// The driver's request for the next step, with whether the stop signal has
/// fired. The stop signal is read only when a batch is used up.
pub open spec fn next_step(v: TaskView, stop: bool) -> (TaskView, Action) {
    match v.phase {
        Phase::Connecting => (v, Action::Connect),
        Phase::Handshaking => (v, Action::Handshake),
        Phase::AwaitingBarrier => (v, Action::AwaitBarrier),
        Phase::Done => (v, Action::Finish),
        Phase::Looping => {
            if v.in_flight {
                (v, Action::AwaitResponse)
            } else if v.batch_left == 0 && stop {
                (finished(v, None), Action::Finish)
            } else if v.attempted >= u64::MAX {
                (finished(v, None), Action::Finish)
            } else {
                let left = if v.batch_left == 0 { v.batch_size } else { v.batch_left };
                (
                    TaskView {
                        batch_left: (left - 1) as nat,
                        attempted: v.attempted + 1,
                        in_flight: true,
                        ..v
                    },
                    Action::SendRequest,
                )
            }
        },
    }
}

/// The outcome of the request in flight: its latency is recorded if it
/// succeeded, and the loop ends if it failed.
pub open spec fn after_response(v: TaskView, ok: bool, latency_ns: nat) -> TaskView {
    if v.phase != Phase::Looping || !v.in_flight {
        v
    } else if ok {
        TaskView {
            in_flight: false,
            latency: combine(v.latency, single_model(latency_ns)),
            ..v
        }
    } else {
        finished(v, Some(Failure::Request))
    }
}

/// Invariant of a task: every recorded sample is an attempted request, and
/// the only attempts without a sample are the one in flight and the one that
/// failed.
pub open spec fn view_wf(v: TaskView) -> bool {
    &&& v.batch_size >= 1
    &&& v.batch_size <= u32::MAX
    &&& v.batch_left <= v.batch_size
    &&& v.attempted <= u64::MAX
    &&& model_wf(v.latency)
    &&& v.in_flight ==> v.phase == Phase::Looping
    &&& v.latency.count + (if v.in_flight || v.failure == Some(Failure::Request) { 1nat } else { 0nat })
        == v.attempted
    &&& v.failure is Some ==> v.phase == Phase::Done
    &&& (v.phase == Phase::Connecting || v.phase == Phase::Handshaking
        || v.phase == Phase::AwaitingBarrier) ==> v.attempted == 0
}

/// One virtual user: a connection driven through connect, priming, the start
/// barrier and a measured request loop, with stop checks between batches.
/// The driver performs each action and reports its outcome.
#[derive(Clone, Copy, Debug)]
pub struct ConnectionTask {
    phase: Phase,
    batch_size: u32,
    batch_left: u32,
    in_flight: bool,
    attempted: u64,
    latency: LatencySummary,
    failure: Option<Failure>,
}

impl View for ConnectionTask {
    type V = TaskView;

    closed spec fn view(&self) -> TaskView {
        TaskView {
            phase: self.phase,
            batch_size: self.batch_size as nat,
            batch_left: self.batch_left as nat,
            in_flight: self.in_flight,
            attempted: self.attempted as nat,
            latency: self.latency@,
            failure: self.failure,
        }
    }
}

impl ConnectionTask {
    pub closed spec fn wf(&self) -> bool {
        &&& view_wf(self@)
        &&& self.latency.wf()
    }

    /// A well-formed task's abstract state meets the task invariant.
    pub proof fn lemma_view_wf(&self)
        requires
            self.wf(),
        ensures
            view_wf(self@),
    {
    }

    /// A task that checks the stop signal every `batch_size` requests.
    pub fn new(batch_size: u32) -> (r: ConnectionTask)
        requires
            batch_size >= 1,
        ensures
            r.wf(),
            r@ == initial_view(batch_size as nat),
    {
        ConnectionTask {
            phase: Phase::Connecting,
            batch_size,
            batch_left: 0,
            in_flight: false,
            attempted: 0,
            latency: LatencySummary::new(),
            failure: None,
        }
    }

    pub fn on_connected(&mut self, ok: bool)
        requires
            old(self).wf(),
        ensures
            final(self).wf(),
            final(self)@ == after_connect(old(self)@, ok),
    {
        if self.phase == Phase::Connecting {
            if ok {
                self.phase = Phase::Handshaking;
            } else {
                self.phase = Phase::Done;
                self.failure = Some(Failure::Connect);
            }
        }
    }

    pub fn on_handshake(&mut self, ok: bool)
        requires
            old(self).wf(),
        ensures
            final(self).wf(),
            final(self)@ == after_handshake(old(self)@, ok),
    {
        if self.phase == Phase::Handshaking {
            if ok {
                self.phase = Phase::AwaitingBarrier;
            } else {
                self.phase = Phase::Done;
                self.failure = Some(Failure::Handshake);
            }
        }
    }

    pub fn on_released(&mut self)
        requires
            old(self).wf(),
        ensures
            final(self).wf(),
            final(self)@ == after_release(old(self)@),
    {
        if self.phase == Phase::AwaitingBarrier {
            self.phase = Phase::Looping;
            self.batch_left = 0;
        }
    }

    /// The next action; `stop_requested` is whether the stop signal has fired.
    pub fn next_action(&mut self, stop_requested: bool) -> (r: Action)
        requires
            old(self).wf(),
        ensures
            final(self).wf(),
            (final(self)@, r) == next_step(old(self)@, stop_requested),
    {
        match self.phase {
            Phase::Connecting => Action::Connect,
            Phase::Handshaking => Action::Handshake,
            Phase::AwaitingBarrier => Action::AwaitBarrier,
            Phase::Done => Action::Finish,
            Phase::Looping => {
                if self.in_flight {
                    Action::AwaitResponse
                } else if (self.batch_left == 0 && stop_requested) || self.attempted == u64::MAX {
                    self.phase = Phase::Done;
                    Action::Finish
                } else {
                    if self.batch_left == 0 {
                        self.batch_left = self.batch_size;
                    }
                    self.batch_left = self.batch_left - 1;
                    self.attempted = self.attempted + 1;
                    self.in_flight = true;
                    Action::SendRequest
                }
            },
        }
    }

    /// Reports the request in flight: whether a full response came back, and
    /// the time it took.
    pub fn on_response(&mut self, ok: bool, latency_ns: u64)
        requires
            old(self).wf(),
        ensures
            final(self).wf(),
            final(self)@ == after_response(old(self)@, ok, latency_ns as nat),
    {
        if self.phase == Phase::Looping && self.in_flight {
            if ok {
                self.latency.record(latency_ns);
                self.in_flight = false;
            } else {
                self.phase = Phase::Done;
                self.in_flight = false;
                self.failure = Some(Failure::Request);
            }
        }
    }

    pub fn phase(&self) -> (r: Phase)
        ensures
            r == self@.phase,
    {
        self.phase
    }

    pub fn attempted(&self) -> (r: u64)
        ensures
            r == self@.attempted,
    {
        self.attempted
    }

    pub fn latency(&self) -> (r: LatencySummary)
        requires
            self.wf(),
        ensures
            r@ == self@.latency,
            r.wf(),
    {
        self.latency
    }

    pub fn failure(&self) -> (r: Option<Failure>)
        ensures
            r == self@.failure,
    {
        self.failure
    }
}

/// Every recorded sample belongs to an attempted request, in any state a task
/// can reach, and no step of the task lowers the number of attempts.
pub proof fn lemma_samples_within_attempts(v: TaskView, stop: bool, ok: bool, latency_ns: nat)
    requires
        view_wf(v),
    ensures
        v.latency.count <= v.attempted,
        after_connect(v, ok).attempted == v.attempted,
        after_handshake(v, ok).attempted == v.attempted,
        after_release(v).attempted == v.attempted,
        next_step(v, stop).0.attempted >= v.attempted,
        after_response(v, ok, latency_ns).attempted == v.attempted,
{
}

/// `k` rounds of a task after the stop signal fired: each round asks for the
/// next action with the signal set and, if a request went out, reports its
/// outcome (`oks[i]` for the `i`-th round, latency `lat`). Gives the state
/// reached and the number of requests sent.
pub open spec fn rounds_after_stop(v: TaskView, oks: Seq<bool>, lat: nat, k: nat) -> (TaskView, nat)
    decreases k,
{
    if k == 0 {
        (v, 0)
    } else {
        let (w, sent) = rounds_after_stop(v, oks, lat, (k - 1) as nat);
        let (x, a) = next_step(w, true);
        if a == Action::SendRequest {
            (after_response(x, oks[k - 1], lat), sent + 1)
        } else {
            (x, sent)
        }
    }
}

/// Once the stop signal has fired, a looping task sends at most what is left
/// of its current batch, never more than one batch, and has finished after
/// that many rounds and one more; with requests of latency `lat`, the time it
/// spends after the signal is at most one batch of them.
pub proof fn lemma_stop_bound(v: TaskView, oks: Seq<bool>, lat: nat, k: nat)
    requires
        view_wf(v),
        v.phase == Phase::Looping,
        !v.in_flight,
        oks.len() >= k,
    ensures
        rounds_after_stop(v, oks, lat, k).1 <= v.batch_left,
        v.batch_left <= v.batch_size,
        k > v.batch_left ==> rounds_after_stop(v, oks, lat, k).0.phase == Phase::Done,
        rounds_after_stop(v, oks, lat, k).1 * lat <= v.batch_size * lat,
{
    lemma_stop_rounds(v, oks, lat, k);
    let sent = rounds_after_stop(v, oks, lat, k).1;
    assert(sent * lat <= v.batch_size * lat) by (nonlinear_arith)
        requires
            sent <= v.batch_size,
    ;
}

proof fn lemma_stop_rounds(v: TaskView, oks: Seq<bool>, lat: nat, k: nat)
    requires
        view_wf(v),
        v.phase == Phase::Looping,
        !v.in_flight,
        oks.len() >= k,
    ensures
        ({
            let (w, sent) = rounds_after_stop(v, oks, lat, k);
            &&& sent <= v.batch_left
            &&& !w.in_flight
            &&& (w.phase == Phase::Done || (w.phase == Phase::Looping && w.batch_left + sent == v.batch_left
                && sent == k))
        }),
    decreases k,
{
    if k > 0 {
        lemma_stop_rounds(v, oks, lat, (k - 1) as nat);
    }
}

} // verus!
