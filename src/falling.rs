//! Falling factorials `x * (x - 1) * ... * (x - m + 1)` as the estimator
//! meets them: which of them are exactly zero or one, and which must be
//! evaluated as a ratio of gamma functions, `Γ(x + 1) / Γ(x - m + 1)`.

use vstd::prelude::*;

verus! {

/// The falling factorial of `x` with `m` factors; one for `m == 0`.
pub open spec fn falling(x: int, m: nat) -> int
    decreases m,
{
    if m == 0 {
        1
    } else {
        falling(x, (m - 1) as nat) * (x - (m - 1))
    }
}

/// How to obtain the factor `falling_fact(n, i, m)` of the estimator.
#[derive(Debug, PartialEq, Eq, Structural, Clone, Copy)]
pub enum FallingFact {
    /// The value is exactly zero.
    Zero,
    /// The value is exactly one.
    One,
    /// The value is the falling factorial of `top` with `len` factors, where
    /// `len <= top`: `exp(lgamma(top + 1) - lgamma(top - len + 1))`.
    GammaRatio { top: u64, len: u64 },
}

impl FallingFact {
    /// The exact integer this form stands for.
    pub open spec fn value(self) -> int {
        match self {
            FallingFact::Zero => 0,
            FallingFact::One => 1,
            FallingFact::GammaRatio { top, len } => falling(top as int, len as nat),
        }
    }
}

/// The form of `falling_fact(n, i, m)`: zero when the sample `m` is larger
/// than the population `n`; else one when the class `i` is the whole
/// population; else zero when `m` exceeds the `n - i` units left, as a factor
/// of the product is then zero; else the gamma ratio for `n - i` and `m`.
pub open spec fn falling_form(n: u64, i: u64, m: u64) -> FallingFact {
    if m > n {
        FallingFact::Zero
    } else if i == n {
        FallingFact::One
    } else if m > n - i {
        FallingFact::Zero
    } else {
        FallingFact::GammaRatio { top: (n - i) as u64, len: m }
    }
}

/// Decides how `falling_fact(n, i, m)` is to be evaluated.
pub fn falling_fact_form(n: u64, i: u64, m: u64) -> (r: FallingFact)
    requires
        i <= n || m > n,
    ensures
        r == falling_form(n, i, m),
        r matches FallingFact::GammaRatio { top, len } ==> len <= top,
{
    if m > n {
        FallingFact::Zero
    } else if i == n {
        FallingFact::One
    } else if m > n - i {
        FallingFact::Zero
    } else {
        FallingFact::GammaRatio { top: n - i, len: m }
    }
}

/// A falling factorial with more factors than `x` holds the factor zero.
pub proof fn lemma_falling_zero(x: int, m: nat)
    requires
        0 <= x < m,
    ensures
        falling(x, m) == 0,
    decreases m,
{
    let k = (m - 1) as nat;
    let a = falling(x, k);
    if x < k {
        lemma_falling_zero(x, k);
        assert(a * (x - k) == 0) by (nonlinear_arith)
            requires
                a == 0,
        ;
    } else {
        assert(a * (x - k) == 0) by (nonlinear_arith)
            requires
                x - k == 0,
        ;
    }
}

/// Between zero and `x` the falling factorial is positive and grows with `x`.
pub proof fn lemma_falling_monotone(y: int, x: int, m: nat)
    requires
        0 <= y <= x,
        m <= x,
    ensures
        0 <= falling(y, m) <= falling(x, m),
        0 < falling(x, m),
    decreases m,
{
    if m > 0 {
        let k = (m - 1) as nat;
        lemma_falling_monotone(y, x, k);
        let a = falling(y, k);
        let b = falling(x, k);
        if y < m {
            lemma_falling_zero(y, m);
        } else {
            assert(0 <= a * (y - k) <= b * (x - k)) by (nonlinear_arith)
                requires
                    0 <= a <= b,
                    0 <= y - k <= x - k,
            ;
        }
        assert(0 < b * (x - k)) by (nonlinear_arith)
            requires
                0 < b,
                0 < x - k,
        ;
    }
}

/// Apart from a whole-population class inside the population, the form
/// stands for the falling factorial of `n - i` with `m` factors.
pub proof fn lemma_form_value(n: u64, i: u64, m: u64)
    requires
        i <= n,
        !(i == n && m <= n),
    ensures
        falling_form(n, i, m).value() == falling(n - i, m as nat),
{
    if m > n - i {
        lemma_falling_zero(n - i, m as nat);
    }
}

/// A class that is the whole population is kept by every sample that fits in
/// it: its factor is one.
pub proof fn lemma_full_class_factor(n: u64, m: u64)
    requires
        m <= n,
    ensures
        falling_form(n, n, m) == FallingFact::One,
        falling_form(n, n, m).value() == 1,
{
}

/// A sample larger than the population gives the factor zero, whatever the
/// class.
pub proof fn lemma_oversized_sample_factor(n: u64, i: u64, m: u64)
    requires
        m > n,
    ensures
        falling_form(n, i, m) == FallingFact::Zero,
        falling_form(n, i, m).value() == 0,
{
}

/// For a sample `1 <= m <= n`, the factor of any class `i <= n` lies between
/// zero and the factor of class zero, which is positive: every capture
/// probability `1 - falling_fact(n, i, m) / falling_fact(n, 0, m)` of the
/// estimator is between zero and one.
pub proof fn lemma_capture_ratio_bounds(n: u64, i: u64, m: u64)
    requires
        1 <= m <= n,
        i <= n,
    ensures
        0 <= falling_form(n, i, m).value() <= falling_form(n, 0, m).value(),
        0 < falling_form(n, 0, m).value(),
{
    lemma_falling_monotone(0, n as int, m as nat);
    if i < n {
        lemma_form_value(n, i, m);
        lemma_falling_monotone(n - i, n as int, m as nat);
    } else {
        lemma_falling_ge_one(n as int, m as nat);
    }
}

/// A falling factorial that stays within the positive integers is at least one.
proof fn lemma_falling_ge_one(x: int, m: nat)
    requires
        m <= x,
    ensures
        falling(x, m) >= 1,
    decreases m,
{
    if m > 0 {
        let k = (m - 1) as nat;
        lemma_falling_ge_one(x, k);
        let b = falling(x, k);
        assert(b * (x - k) >= 1) by (nonlinear_arith)
            requires
                b >= 1,
                x - k >= 1,
        ;
    }
}

} // verus!
