use vstd::prelude::*;

verus! {

/// What a set of latency samples is reduced to: how many there are, their
/// sum, and the smallest and largest of them (all zero for no samples).
pub struct SummaryModel {
    pub count: nat,
    pub total: nat,
    pub min: nat,
    pub max: nat,
}

pub open spec fn empty_model() -> SummaryModel {
    SummaryModel { count: 0, total: 0, min: 0, max: 0 }
}

/// The summary of one sample.
pub open spec fn single_model(v: nat) -> SummaryModel {
    SummaryModel { count: 1, total: v, min: v, max: v }
}

pub open spec fn nat_min(a: nat, b: nat) -> nat {
    if a <= b { a } else { b }
}

pub open spec fn nat_max(a: nat, b: nat) -> nat {
    if a >= b { a } else { b }
}

/// The summary of the union of two sample sets.
pub open spec fn combine(a: SummaryModel, b: SummaryModel) -> SummaryModel {
    if a.count == 0 {
        b
    } else if b.count == 0 {
        a
    } else {
        SummaryModel {
            count: a.count + b.count,
            total: a.total + b.total,
            min: nat_min(a.min, b.min),
            max: nat_max(a.max, b.max),
        }
    }
}

/// A summary that some sample set has: empty, or with its minimum and maximum
/// bounding every sample, hence the sum.
pub open spec fn model_wf(m: SummaryModel) -> bool {
    if m.count == 0 {
        m.total == 0 && m.min == 0 && m.max == 0
    } else {
        &&& m.min <= m.max
        &&& m.min * m.count <= m.total
        &&& m.total <= m.max * m.count
    }
}

/// Summary of a sequence of samples, taken one after the other.
pub open spec fn summary_of(s: Seq<u64>) -> SummaryModel
    decreases s.len(),
{
    if s.len() == 0 {
        empty_model()
    } else {
        combine(summary_of(s.drop_last()), single_model(s.last() as nat))
    }
}

/// Merging summaries is associative and commutative, and the empty summary
/// changes nothing: partial results merged in any order and grouping give the
/// same count, sum, minimum and maximum, hence the same mean and throughput.
pub proof fn lemma_merge_order_free(a: SummaryModel, b: SummaryModel, c: SummaryModel)
    requires
        model_wf(a),
        model_wf(b),
        model_wf(c),
    ensures
        combine(combine(a, b), c) == combine(a, combine(b, c)),
        combine(a, b) == combine(b, a),
        combine(a, empty_model()) == a,
        combine(empty_model(), a) == a,
        model_wf(combine(a, b)),
{
    lemma_combine_wf(a, b);
}

/// The merge of two well-formed summaries is well formed.
pub proof fn lemma_combine_wf(a: SummaryModel, b: SummaryModel)
    requires
        model_wf(a),
        model_wf(b),
    ensures
        model_wf(combine(a, b)),
{
    if a.count > 0 && b.count > 0 {
        let m = combine(a, b);
        assert(m.min * a.count <= a.min * a.count) by (nonlinear_arith)
            requires
                m.min <= a.min,
        ;
        assert(m.min * b.count <= b.min * b.count) by (nonlinear_arith)
            requires
                m.min <= b.min,
        ;
        assert(a.max * a.count <= m.max * a.count) by (nonlinear_arith)
            requires
                a.max <= m.max,
        ;
        assert(b.max * b.count <= m.max * b.count) by (nonlinear_arith)
            requires
                b.max <= m.max,
        ;
        assert(m.min * (a.count + b.count) == m.min * a.count + m.min * b.count) by (nonlinear_arith);
        assert(m.max * (a.count + b.count) == m.max * a.count + m.max * b.count) by (nonlinear_arith);
    }
}

/// Summarizing a concatenation of sample sequences is merging their summaries:
/// how the samples were split between tasks does not matter.
pub proof fn lemma_summary_of_concat(s: Seq<u64>, t: Seq<u64>)
    ensures
        summary_of(s + t) == combine(summary_of(s), summary_of(t)),
        model_wf(summary_of(s)),
    decreases t.len(),
{
    lemma_summary_of_wf(s);
    if t.len() == 0 {
        assert(s + t =~= s);
    } else {
        lemma_summary_of_concat(s, t.drop_last());
        assert((s + t).drop_last() =~= s + t.drop_last());
        lemma_summary_of_wf(t.drop_last());
        lemma_combine_wf(single_model(t.last() as nat), empty_model());
        lemma_merge_order_free(summary_of(s), summary_of(t.drop_last()), single_model(t.last() as nat));
    }
}

/// Every summary of samples is well formed.
pub proof fn lemma_summary_of_wf(s: Seq<u64>)
    ensures
        model_wf(summary_of(s)),
    decreases s.len(),
{
    if s.len() > 0 {
        lemma_summary_of_wf(s.drop_last());
        lemma_combine_wf(summary_of(s.drop_last()), single_model(s.last() as nat));
    }
}

/// Running latency summary of one task, one worker or a whole run, in
/// nanoseconds.
#[derive(Clone, Copy, Debug)]
pub struct LatencySummary {
    count: u64,
    total_ns: u128,
    min_ns: u64,
    max_ns: u64,
}

impl View for LatencySummary {
    type V = SummaryModel;

    closed spec fn view(&self) -> SummaryModel {
        SummaryModel {
            count: self.count as nat,
            total: self.total_ns as nat,
            min: self.min_ns as nat,
            max: self.max_ns as nat,
        }
    }
}

impl LatencySummary {
    pub open spec fn wf(&self) -> bool {
        model_wf(self@)
    }

    /// The summary of no samples.
    pub fn new() -> (r: LatencySummary)
        ensures
            r@ == empty_model(),
            r.wf(),
    {
        LatencySummary { count: 0, total_ns: 0, min_ns: 0, max_ns: 0 }
    }

    /// Adds one sample.
    pub fn record(&mut self, latency_ns: u64)
        requires
            old(self).wf(),
            old(self)@.count < u64::MAX,
        ensures
            final(self).wf(),
            final(self)@ == combine(old(self)@, single_model(latency_ns as nat)),
    {
        proof {
            lemma_combine_wf(self@, single_model(latency_ns as nat));
        }
        let one = LatencySummary { count: 1, total_ns: latency_ns as u128, min_ns: latency_ns, max_ns: latency_ns };
        self.merge(&one);
    }

    /// Adds every sample of `other`.
    pub fn merge(&mut self, other: &LatencySummary)
        requires
            old(self).wf(),
            other.wf(),
            old(self)@.count + other@.count <= u64::MAX,
        ensures
            final(self).wf(),
            final(self)@ == combine(old(self)@, other@),
    {
        proof {
            lemma_combine_wf(self@, other@);
        }
        if self.count == 0 {
            *self = *other;
        } else if other.count > 0 {
            let count = self.count + other.count;
            let max_ns = if self.max_ns >= other.max_ns { self.max_ns } else { other.max_ns };
            proof {
                let m = combine(self@, other@);
                assert(m.total <= m.max * m.count);
                assert(m.max * m.count <= u64::MAX * u64::MAX) by (nonlinear_arith)
                    requires
                        m.max <= u64::MAX,
                        m.count <= u64::MAX,
                ;
            }
            self.total_ns = self.total_ns + other.total_ns;
            self.count = count;
            self.min_ns = if self.min_ns <= other.min_ns { self.min_ns } else { other.min_ns };
            self.max_ns = max_ns;
        }
    }

    pub fn count(&self) -> (r: u64)
        ensures
            r == self@.count,
    {
        self.count
    }

    pub fn total_ns(&self) -> (r: u128)
        ensures
            r == self@.total,
    {
        self.total_ns
    }

    pub fn min_ns(&self) -> (r: u64)
        ensures
            r == self@.min,
    {
        self.min_ns
    }

    pub fn max_ns(&self) -> (r: u64)
        ensures
            r == self@.max,
    {
        self.max_ns
    }

    /// Mean latency, rounded down; zero when there are no samples.
    pub fn mean_ns(&self) -> (r: u64)
        requires
            self.wf(),
        ensures
            self@.count == 0 ==> r == 0,
            self@.count > 0 ==> r == self@.total / self@.count,
            self@.min <= r <= self@.max,
    {
        if self.count == 0 {
            0
        } else {
            let mean = self.total_ns / (self.count as u128);
            proof {
                let m = self@;
                vstd::arithmetic::div_mod::lemma_div_is_ordered(
                    (m.min * m.count) as int, m.total as int, m.count as int);
                vstd::arithmetic::div_mod::lemma_div_is_ordered(
                    m.total as int, (m.max * m.count) as int, m.count as int);
                vstd::arithmetic::div_mod::lemma_div_by_multiple(m.min as int, m.count as int);
                vstd::arithmetic::div_mod::lemma_div_by_multiple(m.max as int, m.count as int);
            }
            mean as u64
        }
    }
}

/// Requests per second for `requests` completed in `elapsed_ns` nanoseconds,
/// rounded down; zero when no time has passed.
pub fn throughput_per_sec(requests: u64, elapsed_ns: u64) -> (r: u128)
    ensures
        elapsed_ns == 0 ==> r == 0,
        elapsed_ns > 0 ==> r == (requests as nat * 1_000_000_000) / (elapsed_ns as nat),
{
    if elapsed_ns == 0 {
        0
    } else {
        proof {
            assert(requests as nat * 1_000_000_000 <= u64::MAX as nat * 1_000_000_000) by (nonlinear_arith)
                requires
                    requests <= u64::MAX,
            ;
        }
        (requests as u128) * 1_000_000_000 / (elapsed_ns as u128)
    }
}

} // verus!
