use vstd::prelude::*;

verus! {

/// Number of connections that worker `i` of `workers` runs when `total`
/// connections are split: every worker gets `total / workers`, and the last
/// one also takes the remainder.
pub open spec fn share(total: nat, workers: nat, i: nat) -> nat {
    if i + 1 == workers {
        (total - (workers - 1) * (total / workers)) as nat
    } else {
        total / workers
    }
}

/// Sum of the shares of the first `k` workers.
pub open spec fn shares_sum(total: nat, workers: nat, k: nat) -> nat
    decreases k,
{
    if k == 0 {
        0
    } else {
        shares_sum(total, workers, (k - 1) as nat) + share(total, workers, (k - 1) as nat)
    }
}

/// Sum of a sequence of counts.
pub open spec fn seq_sum(s: Seq<usize>) -> int
    decreases s.len(),
{
    if s.len() == 0 {
        0
    } else {
        seq_sum(s.drop_last()) + s.last()
    }
}

proof fn lemma_even_part_fits(total: nat, workers: nat, k: nat)
    requires
        workers >= 1,
        k <= workers,
    ensures
        k * (total / workers) <= total,
        (workers - 1) * (total / workers) + total / workers + total % workers == total,
{
    vstd::arithmetic::div_mod::lemma_fundamental_div_mod(total as int, workers as int);
    assert(k * (total / workers) <= workers * (total / workers)) by (nonlinear_arith)
        requires
            k <= workers,
    ;
    assert((workers - 1) * (total / workers) + total / workers == workers * (total / workers))
        by (nonlinear_arith);
}

proof fn lemma_prefix_sum(total: nat, workers: nat, k: nat)
    requires
        workers >= 1,
        k < workers,
    ensures
        shares_sum(total, workers, k) == k * (total / workers),
    decreases k,
{
    if k > 0 {
        lemma_prefix_sum(total, workers, (k - 1) as nat);
        let q = total / workers;
        let km: int = k - 1;
        assert(km * q + q == (km + 1) * q) by (nonlinear_arith);
        assert(share(total, workers, (k - 1) as nat) == q);
        assert(shares_sum(total, workers, k) == shares_sum(total, workers, (k - 1) as nat) + q);
        assert(km + 1 == k);
    } else {
        assert(0 * (total / workers) == 0);
    }
}

/// The split of `total` connections over `workers >= 1` workers hands out
/// exactly `total` connections, no worker gets a negative count, and only the
/// last worker may hold more than the others, by `total % workers`.
pub proof fn lemma_partition_total(total: nat, workers: nat)
    requires
        workers >= 1,
    ensures
        shares_sum(total, workers, workers) == total,
        (workers - 1) * (total / workers) <= total,
        forall|i: nat| i + 1 < workers ==> #[trigger] share(total, workers, i) == total / workers,
        share(total, workers, (workers - 1) as nat) == total / workers + total % workers,
{
    lemma_even_part_fits(total, workers, (workers - 1) as nat);
    lemma_prefix_sum(total, workers, (workers - 1) as nat);
}

/// Splits `total` connections over `workers` workers: each gets
/// `total / workers` and the last one the remainder as well.
pub fn partition_connections(total: usize, workers: usize) -> (r: Vec<usize>)
    requires
        workers >= 1,
    ensures
        r@.len() == workers,
        forall|i: int| 0 <= i < workers ==> #[trigger] r@[i] == share(total as nat, workers as nat, i as nat),
        seq_sum(r@) == total,
{
    let even = total / workers;
    let mut r: Vec<usize> = Vec::new();
    let mut assigned: usize = 0;
    let mut i: usize = 0;
    while i < workers
        invariant
            workers >= 1,
            even == total / workers,
            i <= workers,
            r@.len() == i,
            assigned == seq_sum(r@),
            i < workers ==> assigned == i * even,
            forall|j: int| 0 <= j < i ==> #[trigger] r@[j] == share(total as nat, workers as nat, j as nat),
            i == workers ==> assigned == total,
        decreases workers - i,
    {
        proof {
            lemma_even_part_fits(total as nat, workers as nat, i as nat);
        }
        let part = if i + 1 == workers {
            total - assigned
        } else {
            even
        };
        let ghost before = r@;
        r.push(part);
        assert(r@.drop_last() =~= before);
        proof {
            if i + 1 < workers {
                assert((i + 1) * even == i * even + even) by (nonlinear_arith);
                lemma_even_part_fits(total as nat, workers as nat, (i + 1) as nat);
            }
        }
        assigned = assigned + part;
        i = i + 1;
    }
    r
}

} // verus!
