//! The expected-capture curve in exact arithmetic. For a histogram `freqs`
//! of `n` parses and a sample of `m` of them, the curve's value is
//! `ftot(m) = sum_{i=1}^{n-1} freqs[i] * (1 - falling_fact(n, i, m) / falling_fact(n, 0, m))`;
//! here it is kept multiplied by the common denominator `falling_fact(n, 0, m)`.

use vstd::prelude::*;
use crate::falling::{falling_form, lemma_capture_ratio_bounds};
use crate::model::{lemma_histogram_total, freq_class, phrases, seq_sum};
use crate::table::HT;

verus! {

/// The capture probability of a phrase of class `i`, times `falling_fact(n, 0, m)`.
pub open spec fn capture_weight(n: u64, i: u64, m: u64) -> int {
    falling_form(n, 0, m).value() - falling_form(n, i, m).value()
}

/// `sum_{i=1}^{upto-1} freqs[i] * capture_weight(n, i, m)`.
pub open spec fn scaled_capture(freqs: Seq<u64>, n: u64, m: u64, upto: int) -> int
    decreases upto,
{
    if upto <= 1 {
        0
    } else {
        scaled_capture(freqs, n, m, upto - 1) + freqs[upto - 1] * capture_weight(
            n,
            (upto - 1) as u64,
            m,
        )
    }
}

/// `ftot(m)` times `falling_fact(n, 0, m)`, for a histogram of `n` parses.
pub open spec fn scaled_ftot(freqs: Seq<u64>, n: u64, m: u64) -> int {
    scaled_capture(freqs, n, m, n as int)
}

/// The partial sums stay between zero and the classes' sizes times the
/// denominator.
proof fn lemma_scaled_capture_bounds(freqs: Seq<u64>, n: u64, m: u64, upto: int)
    requires
        1 <= m <= n,
        1 <= upto <= n,
        freqs.len() == n + 1,
    ensures
        0 <= scaled_capture(freqs, n, m, upto) <= seq_sum(freqs.subrange(1, upto))
            * falling_form(n, 0, m).value(),
    decreases upto,
{
    let b = falling_form(n, 0, m).value();
    if upto == 1 {
        assert(freqs.subrange(1, 1) =~= Seq::<u64>::empty());
    } else {
        let i = upto - 1;
        lemma_scaled_capture_bounds(freqs, n, m, i);
        lemma_capture_ratio_bounds(n, i as u64, m);
        assert(freqs.subrange(1, upto).drop_last() =~= freqs.subrange(1, i));
        let prev = scaled_capture(freqs, n, m, i);
        let s = seq_sum(freqs.subrange(1, i));
        let f = freqs[i] as int;
        let w = capture_weight(n, i as u64, m);
        assert(0 <= prev + f * w <= (s + f) * b) by (nonlinear_arith)
            requires
                0 <= prev <= s * b,
                0 <= w <= b,
                0 <= f,
        ;
    }
}

/// Partial sums of counts only grow.
proof fn lemma_sum_prefix(s: Seq<u64>, k: int)
    requires
        1 <= k <= s.len(),
    ensures
        seq_sum(s.subrange(1, k)) <= seq_sum(s.subrange(1, s.len() as int)),
    decreases s.len() - k,
{
    if k < s.len() {
        lemma_sum_prefix(s, k + 1);
        assert(s.subrange(1, k + 1).drop_last() =~= s.subrange(1, k));
    }
}

/// For every sample size `1 <= m <= n`, the expected number of phrases a
/// sample of `m` of the `n` parses captures is at least zero and at most the
/// number of distinct phrases: `0 <= ftot(m) <= |phrases|`, stated with both
/// sides multiplied by `falling_fact(n, 0, m)`, which is positive.
pub proof fn lemma_expected_capture_bounds(parses: Seq<Seq<HT>>, freqs: Seq<u64>, m: u64)
    requires
        parses.len() <= u64::MAX,
        freqs.len() == parses.len() + 1,
        forall|k: int| 0 <= k < freqs.len() ==> freqs[k] == freq_class(parses, k as nat).len(),
        1 <= m <= parses.len(),
    ensures
        0 < falling_form(parses.len() as u64, 0, m).value(),
        0 <= scaled_ftot(freqs, parses.len() as u64, m),
        scaled_ftot(freqs, parses.len() as u64, m) <= phrases(parses).len() * falling_form(
            parses.len() as u64,
            0,
            m,
        ).value(),
{
    let n = parses.len() as u64;
    lemma_capture_ratio_bounds(n, 0, m);
    lemma_scaled_capture_bounds(freqs, n, m, n as int);
    lemma_sum_prefix(freqs, n as int);
    lemma_histogram_total(parses, freqs);
    let b = falling_form(n, 0, m).value();
    let s = seq_sum(freqs.subrange(1, n as int));
    let total = phrases(parses).len() as int;
    assert(s * b <= total * b) by (nonlinear_arith)
        requires
            s <= total,
            0 < b,
    ;
}

} // verus!
