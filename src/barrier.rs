use vstd::prelude::*;

verus! {

/// What one arrival at the start barrier learns.
#[derive(PartialEq, Eq, Structural, Clone, Copy, Debug)]
pub enum Arrival {
    /// Others are still missing: wait for the release.
    Wait,
    /// This was the last participant: release everyone.
    Release,
    /// The barrier was already open: go on.
    Open,
}

impl Arrival {
    /// Whether the arriving participant may go past the barrier at once.
    pub fn proceeds(&self) -> (r: bool)
        ensures
            r == (*self != Arrival::Wait),
    {
        !matches!(self, Arrival::Wait)
    }
}

/// The outcome of an arrival at a barrier for `size` participants at which
/// `before` have already arrived.
pub open spec fn arrival_outcome(size: nat, before: nat) -> Arrival {
    if before + 1 < size {
        Arrival::Wait
    } else if before + 1 == size {
        Arrival::Release
    } else {
        Arrival::Open
    }
}

/// Arrivals counted after one more participant checked in.
pub open spec fn arrived_after(size: nat, before: nat) -> nat {
    if before < size { before + 1 } else { before }
}

/// Arrivals counted after `k` participants checked in at a fresh barrier.
pub open spec fn arrived_after_k(size: nat, k: nat) -> nat
    decreases k,
{
    if k == 0 { 0 } else { arrived_after(size, arrived_after_k(size, (k - 1) as nat)) }
}

/// Accounting of the start barrier: it holds every participant until all
/// `size` of them have arrived, then lets all through together.
#[derive(Clone, Copy, Debug)]
pub struct StartBarrier {
    size: usize,
    arrived: usize,
}

impl StartBarrier {
    pub closed spec fn spec_size(&self) -> nat {
        self.size as nat
    }

    pub closed spec fn spec_arrived(&self) -> nat {
        self.arrived as nat
    }

    pub open spec fn wf(&self) -> bool {
        1 <= self.spec_size() && self.spec_arrived() <= self.spec_size()
    }

    /// A barrier for `size` participants, none arrived.
    pub fn new(size: usize) -> (r: StartBarrier)
        requires
            size >= 1,
        ensures
            r.wf(),
            r.spec_size() == size,
            r.spec_arrived() == 0,
    {
        StartBarrier { size, arrived: 0 }
    }

    /// One participant checks in.
    pub fn arrive(&mut self) -> (r: Arrival)
        requires
            old(self).wf(),
        ensures
            final(self).wf(),
            final(self).spec_size() == old(self).spec_size(),
            final(self).spec_arrived() == arrived_after(old(self).spec_size(), old(self).spec_arrived()),
            r == arrival_outcome(old(self).spec_size(), old(self).spec_arrived()),
    {
        if self.arrived < self.size {
            self.arrived = self.arrived + 1;
            if self.arrived == self.size {
                Arrival::Release
            } else {
                Arrival::Wait
            }
        } else {
            Arrival::Open
        }
    }

    /// Whether every participant has arrived.
    pub fn is_open(&self) -> (r: bool)
        ensures
            r == (self.spec_arrived() == self.spec_size()),
    {
        self.arrived == self.size
    }

    pub fn size(&self) -> (r: usize)
        ensures
            r == self.spec_size(),
    {
        self.size
    }

    pub fn arrived(&self) -> (r: usize)
        ensures
            r == self.spec_arrived(),
    {
        self.arrived
    }
}

/// At a barrier for `size >= 1` participants, the arrival that follows `k`
/// earlier ones must wait exactly when fewer than `size` participants (itself
/// included) have arrived, is the release when it is the `size`-th, and the
/// barrier is open after `k` arrivals exactly when `k >= size`. With a single
/// participant the first arrival releases at once.
pub proof fn lemma_barrier_release(size: nat, k: nat)
    requires
        size >= 1,
    ensures
        arrived_after_k(size, k) == if k < size { k } else { size },
        (arrival_outcome(size, arrived_after_k(size, k)) == Arrival::Wait) <==> k + 1 < size,
        (arrival_outcome(size, arrived_after_k(size, k)) == Arrival::Release) <==> k + 1 == size,
        (arrived_after_k(size, k) == size) <==> k >= size,
        size == 1 ==> arrival_outcome(size, 0) == Arrival::Release,
    decreases k,
{
    if k > 0 {
        lemma_barrier_release(size, (k - 1) as nat);
    }
}

} // verus!
