//! The per-element kernel algorithm: counting Collatz steps with an
//! overflow guard, and its mathematical specification.

use vstd::prelude::*;

verus! {

/// Reserved result value denoting an exceptional outcome (arithmetic
/// overflow of an intermediate value, or a step count too large to
/// represent). Never a legitimate step count.
pub const OVERFLOW_SENTINEL: u32 = 0xffff_ffff;

/// One Collatz step: halve an even value, map an odd value `v` to `3v + 1`.
pub open spec fn collatz_next(v: nat) -> nat {
    if v % 2 == 0 {
        v / 2
    } else {
        3 * v + 1
    }
}

/// The next step applied to `v` would leave the unsigned 32-bit range.
pub open spec fn would_overflow(v: nat) -> bool {
    v % 2 == 1 && 3 * v + 1 > u32::MAX
}

/// The value reached from `x` after `k` Collatz steps.
pub open spec fn iterate(x: nat, k: nat) -> nat
    decreases k,
{
    if k == 0 {
        x
    } else {
        collatz_next(iterate(x, (k - 1) as nat))
    }
}

/// No iterate of `x` before step `m` equals 1.
pub open spec fn no_one_before(x: nat, m: nat) -> bool {
    forall|j: nat| j < m ==> iterate(x, j) != 1
}

/// `k` is the exact Collatz step count of `x`: the walk reaches 1 at step
/// `k` and at no earlier step.
pub open spec fn counts_to(x: nat, k: nat) -> bool {
    iterate(x, k) == 1 && no_one_before(x, k)
}

/// Every iterate of `x` up to and including step `k` is representable as an
/// unsigned 32-bit value.
pub open spec fn bounded_upto(x: nat, k: nat) -> bool {
    forall|j: nat| j <= k ==> iterate(x, j) <= u32::MAX
}

/// The walk from `x` stays representable and away from 1 through step `k`,
/// where the next step would overflow.
pub open spec fn overflows_at(x: nat, k: nat) -> bool {
    &&& bounded_upto(x, k)
    &&& forall|j: nat| j <= k ==> iterate(x, j) != 1
    &&& would_overflow(iterate(x, k))
}

/// What a result entry `r` must be for the input value `x`: either the exact
/// step count of a walk that stays in 32 bits, or the sentinel, owed exactly
/// when some step would overflow or when no count below the sentinel exists.
pub open spec fn step_count_is(x: nat, r: nat) -> bool {
    if r == OVERFLOW_SENTINEL as nat {
        (exists|k: nat| overflows_at(x, k)) || (bounded_upto(
            x,
            (OVERFLOW_SENTINEL - 1) as nat,
        ) && no_one_before(x, OVERFLOW_SENTINEL as nat))
    } else {
        r < OVERFLOW_SENTINEL as nat && counts_to(x, r) && bounded_upto(x, r)
    }
}

/// Count the Collatz steps of `n`, exactly as the device kernel does:
/// repeatedly apply the step until the value reaches 1, checking before each
/// multiply-add whether it would leave the 32-bit range, and returning the
/// sentinel in that case. A count that would itself reach the sentinel value
/// is reported as the sentinel as well, so every legitimate count returned
/// is strictly below it.
pub fn collatz_step_count(n: u32) -> (r: u32)
    ensures
        step_count_is(n as nat, r as nat),
{
    let mut x = n;
    let mut steps: u32 = 0;
    while x != 1
        invariant
            x as nat == iterate(n as nat, steps as nat),
            steps < OVERFLOW_SENTINEL,
            no_one_before(n as nat, steps as nat),
            bounded_upto(n as nat, steps as nat),
        decreases OVERFLOW_SENTINEL - steps,
    {
        if x % 2 == 1 {
            if x > (u32::MAX - 1) / 3 {
                proof {
                    assert(overflows_at(n as nat, steps as nat)) by {
                        assert(forall|j: nat|
                            j <= steps as nat ==> iterate(n as nat, j) != 1) by {
                            assert(iterate(n as nat, steps as nat) != 1);
                        }
                        assert(would_overflow(iterate(n as nat, steps as nat)));
                    }
                }
                return OVERFLOW_SENTINEL;
            }
            x = 3 * x + 1;
        } else {
            x = x / 2;
        }
        proof {
            assert(iterate(n as nat, (steps + 1) as nat) == collatz_next(
                iterate(n as nat, steps as nat),
            ));
        }
        if steps == OVERFLOW_SENTINEL - 1 {
            proof {
                assert(no_one_before(n as nat, OVERFLOW_SENTINEL as nat)) by {
                    assert(forall|j: nat|
                        j < OVERFLOW_SENTINEL as nat ==> iterate(n as nat, j) != 1) by {
                        assert(iterate(n as nat, steps as nat) != 1);
                    }
                }
            }
            return OVERFLOW_SENTINEL;
        }
        steps = steps + 1;
    }
    steps
}

/// A whole result sequence matches a whole input sequence: same length, and
/// entry `i` is a correct result for input `i`.
pub open spec fn results_for(input: Seq<u32>, output: Seq<u32>) -> bool {
    &&& output.len() == input.len()
    &&& forall|i: int|
        0 <= i < input.len() ==> step_count_is(input[i] as nat, (#[trigger] output[i]) as nat)
}

/// Evaluate a whole input sequence element by element on the host: the
/// reference path of the engine, dispatching independent pure evaluations
/// while preserving length and index correspondence. An empty input yields
/// an empty result.
pub fn evaluate_sequence(input: &Vec<u32>) -> (r: Vec<u32>)
    ensures
        results_for(input@, r@),
{
    let mut out: Vec<u32> = Vec::new();
    let mut i: usize = 0;
    while i < input.len()
        invariant
            i <= input.len(),
            out@.len() == i,
            forall|j: int|
                0 <= j < i ==> step_count_is(input@[j] as nat, (#[trigger] out@[j]) as nat),
        decreases input.len() - i,
    {
        let c = collatz_step_count(input[i]);
        out.push(c);
        i = i + 1;
    }
    out
}

/// A walk cannot both reach 1 within bounds and hit the overflow guard:
/// the two outcomes of the kernel are mutually exclusive.
proof fn lemma_overflow_excludes_count(x: nat, k: nat, r: nat)
    requires
        overflows_at(x, k),
    ensures
        !(counts_to(x, r) && bounded_upto(x, r)),
{
    if counts_to(x, r) && bounded_upto(x, r) {
        if r <= k {
            assert(iterate(x, r) == 1);
            assert(iterate(x, r) != 1);
        } else {
            assert(iterate(x, (k + 1) as nat) == collatz_next(iterate(x, k)));
            assert(iterate(x, (k + 1) as nat) > u32::MAX);
            assert(iterate(x, (k + 1) as nat) <= u32::MAX);
        }
    }
}

/// Exact step counts are unique: a walk reaches 1 for the first time at one
/// step index only.
proof fn lemma_counts_to_unique(x: nat, k1: nat, k2: nat)
    requires
        counts_to(x, k1),
        counts_to(x, k2),
    ensures
        k1 == k2,
{
    if k1 < k2 {
        assert(iterate(x, k1) == 1);
    }
    if k2 < k1 {
        assert(iterate(x, k2) == 1);
    }
}

/// Determinism of a single evaluation: the result specification pins exactly
/// one result value for each input value, so two evaluations of the same
/// value agree.
pub proof fn lemma_step_count_unique(x: nat, r1: nat, r2: nat)
    requires
        step_count_is(x, r1),
        step_count_is(x, r2),
    ensures
        r1 == r2,
{
    let s = OVERFLOW_SENTINEL as nat;
    if r1 == s && r2 == s {
    } else if r1 != s && r2 != s {
        lemma_counts_to_unique(x, r1, r2);
    } else {
        let rc = if r1 == s { r2 } else { r1 };
        assert(counts_to(x, rc) && bounded_upto(x, rc) && rc < s);
        if exists|k: nat| overflows_at(x, k) {
            let k = choose|k: nat| overflows_at(x, k);
            lemma_overflow_excludes_count(x, k, rc);
        } else {
            assert(no_one_before(x, s));
            assert(iterate(x, rc) == 1);
        }
    }
}

/// Exactness: whenever a true Collatz step count below the sentinel exists
/// whose walk stays representable in 32 bits, every correct result equals
/// that count — never the sentinel, never a wrapped value.
pub proof fn lemma_result_is_exact_count(x: nat, k: nat, r: nat)
    requires
        counts_to(x, k),
        bounded_upto(x, k),
        k < OVERFLOW_SENTINEL as nat,
        step_count_is(x, r),
    ensures
        r == k,
{
    assert(step_count_is(x, k));
    lemma_step_count_unique(x, r, k);
}

/// Determinism of whole dispatches: two result sequences for the same input
/// sequence are identical — no cross-call state can leak into results.
pub proof fn lemma_results_deterministic(input: Seq<u32>, r1: Seq<u32>, r2: Seq<u32>)
    requires
        results_for(input, r1),
        results_for(input, r2),
    ensures
        r1 == r2,
{
    assert forall|i: int| 0 <= i < r1.len() implies r1[i] == r2[i] by {
        lemma_step_count_unique(input[i] as nat, r1[i] as nat, r2[i] as nat);
    }
    assert(r1 =~= r2);
}

/// Order preservation: permuting an input sequence permutes the results
/// identically. If entry `i` of one input is entry `perm[i]` of another,
/// then entry `i` of its results is entry `perm[i]` of the other's.
pub proof fn lemma_permutation_preserved(
    input1: Seq<u32>,
    r1: Seq<u32>,
    input2: Seq<u32>,
    r2: Seq<u32>,
    perm: Seq<int>,
)
    requires
        results_for(input1, r1),
        results_for(input2, r2),
        perm.len() == input2.len(),
        forall|i: int| 0 <= i < perm.len() ==> 0 <= #[trigger] perm[i] < input1.len(),
        forall|i: int| 0 <= i < perm.len() ==> input2[i] == input1[#[trigger] perm[i]],
    ensures
        forall|i: int| 0 <= i < perm.len() ==> r2[i] == r1[#[trigger] perm[i]],
{
    assert forall|i: int| 0 <= i < perm.len() implies r2[i] == r1[#[trigger] perm[i]] by {
        lemma_step_count_unique(input2[i] as nat, r2[i] as nat, r1[perm[i]] as nat);
    }
}

} // verus!
