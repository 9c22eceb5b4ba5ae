//! What holds of the estimators on every series: where they can be
//! evaluated, and the series on which they vanish.

use vstd::prelude::*;

use crate::model::{
    allan_sum, allan_terms, is_feasible, lemma_allan_terms_bounds, modified_sum, modified_terms,
    modified_width, second_difference, stride_of, window_sum,
};
use crate::{corner_sum, estimate_of, estimate_sum, estimate_terms, Deviation, Error};

verus! {

/// `x` is the arithmetic progression that starts at `first` and grows by
/// `step` from one sample to the next.
pub open spec fn is_ramp(x: Seq<i64>, first: int, step: int) -> bool {
    forall|i: int| 0 <= i < x.len() ==> #[trigger] x[i] == first + step * i
}

/// Every sample of `x` is `level`.
pub open spec fn is_constant(x: Seq<i64>, level: int) -> bool {
    forall|i: int| 0 <= i < x.len() ==> #[trigger] x[i] == level
}

/// On a series of at least one sample, a `tau` of `n` samples is feasible
/// exactly when `n <= (len - 1) / 2`; an estimator fails with
/// `NotEnoughSamplesError` on every other `tau`, and on no feasible one.
pub proof fn lemma_feasibility_boundary(
    calc: Deviation,
    root: bool,
    x: Seq<i64>,
    n: int,
    overlapping: bool,
)
    requires
        x.len() >= 1,
    ensures
        is_feasible(x.len() as int, n) <==> n <= (x.len() - 1) / 2,
        estimate_of(calc, root, x, n, overlapping) == Err::<crate::Estimate, Error>(
            Error::NotEnoughSamplesError,
        ) <==> n > (x.len() - 1) / 2,
{
}

/// At a feasible `tau` every estimator sums at least one term, and no more
/// terms than the series has second differences: the estimate has a
/// denominator that is not zero.
pub proof fn lemma_estimate_has_terms(
    calc: Deviation,
    root: bool,
    x: Seq<i64>,
    n: int,
    overlapping: bool,
)
    requires
        x.len() <= usize::MAX,
        n >= 1,
        is_feasible(x.len() as int, n),
    ensures
        1 <= estimate_terms(calc, x.len() as int, n, overlapping) <= x.len() - 2 * n,
        estimate_of(calc, root, x, n, overlapping) matches Ok(e) ==> {
            &&& e.terms == estimate_terms(calc, x.len() as int, n, overlapping)
            &&& e.tau == n
            &&& e.variance_den() > 0
        },
{
    let len = x.len() as int;
    let stride = stride_of(n, overlapping);
    lemma_allan_terms_bounds(len, n, stride);
    let t = allan_terms(len, n, stride);
    assert(1 <= t <= len - 2 * n) by (nonlinear_arith)
        requires
            (t - 1) * stride < len - 2 * n <= t * stride,
            stride >= 1,
            len - 2 * n >= 1,
    ;
    let k = estimate_terms(calc, len, n, overlapping);
    assert(2 * (k as nat) * (n as nat) * (n as nat) > 0) by (nonlinear_arith)
        requires
            k >= 1,
            n >= 1,
    ;
    assert(k as usize == k && n as usize == n);
}

/// The second differences of an arithmetic progression are zero.
proof fn lemma_ramp_second_difference(x: Seq<i64>, first: int, step: int, n: int, offset: int)
    requires
        is_ramp(x, first, step),
        n >= 0,
        0 <= offset,
        offset + 2 * n < x.len(),
    ensures
        second_difference(x, n, offset) == 0,
{
    assert(x[offset] == first + step * offset);
    assert(x[offset + n] == first + step * (offset + n));
    assert(x[offset + 2 * n] == first + step * (offset + 2 * n));
    assert((first + step * offset) - 2 * (first + step * (offset + n)) + (first + step * (offset
        + 2 * n)) == 0) by (nonlinear_arith);
}

proof fn lemma_ramp_allan_sum(
    x: Seq<i64>,
    first: int,
    step: int,
    n: int,
    stride: int,
    terms: nat,
)
    requires
        is_ramp(x, first, step),
        n >= 1,
        stride >= 1,
        is_feasible(x.len() as int, n),
        terms <= allan_terms(x.len() as int, n, stride),
    ensures
        allan_sum(x, n, stride, terms) == 0,
    decreases terms,
{
    if terms > 0 {
        lemma_ramp_allan_sum(x, first, step, n, stride, (terms - 1) as nat);
        lemma_allan_terms_bounds(x.len() as int, n, stride);
        let total = allan_terms(x.len() as int, n, stride);
        assert(0 <= (terms - 1) * stride <= (total - 1) * stride) by (nonlinear_arith)
            requires
                1 <= terms <= total,
                stride >= 1,
        ;
        lemma_ramp_second_difference(x, first, step, n, (terms - 1) * stride);
    }
}

proof fn lemma_ramp_window_sum(
    x: Seq<i64>,
    first: int,
    step: int,
    n: int,
    start: int,
    width: nat,
)
    requires
        is_ramp(x, first, step),
        n >= 1,
        0 <= start,
        start + width + 2 * n <= x.len(),
    ensures
        window_sum(x, n, start, width) == 0,
    decreases width,
{
    if width > 0 {
        lemma_ramp_window_sum(x, first, step, n, start, (width - 1) as nat);
        lemma_ramp_second_difference(x, first, step, n, start + width - 1);
    }
}

proof fn lemma_ramp_modified_sum(x: Seq<i64>, first: int, step: int, n: int, terms: nat)
    requires
        is_ramp(x, first, step),
        n >= 1,
        is_feasible(x.len() as int, n),
        terms <= modified_terms(x.len() as int, n),
    ensures
        modified_sum(x, n, modified_width(x.len() as int, n) as nat, terms) == 0,
    decreases terms,
{
    if terms > 0 {
        lemma_ramp_modified_sum(x, first, step, n, (terms - 1) as nat);
        lemma_ramp_window_sum(
            x,
            first,
            step,
            n,
            terms - 1,
            modified_width(x.len() as int, n) as nat,
        );
    }
}

/// A linear ramp has no instability: at every feasible `tau` the sum of
/// squares of every estimator is exactly zero, and so are the deviation and
/// the variance.
pub proof fn lemma_ramp_is_stable(
    calc: Deviation,
    root: bool,
    x: Seq<i64>,
    first: int,
    step: int,
    n: int,
    overlapping: bool,
)
    requires
        is_ramp(x, first, step),
        n >= 1,
        is_feasible(x.len() as int, n),
    ensures
        estimate_sum(calc, x, n, overlapping) == 0,
        estimate_of(calc, root, x, n, overlapping) matches Ok(e) && e.sum == 0,
{
    let len = x.len() as int;
    match calc {
        Deviation::Allan => {
            let stride = stride_of(n, overlapping);
            lemma_allan_terms_bounds(len, n, stride);
            assert(allan_terms(len, n, stride) >= 0) by (nonlinear_arith)
                requires
                    len - 2 * n <= allan_terms(len, n, stride) * stride,
                    len - 2 * n > 0,
                    stride >= 1,
            ;
            lemma_ramp_allan_sum(x, first, step, n, stride, allan_terms(len, n, stride) as nat);
        },
        _ => {
            lemma_ramp_modified_sum(x, first, step, n, modified_terms(len, n) as nat);
        },
    }
}

/// A constant series has no instability: at every feasible `tau` the sum of
/// squares of every estimator is exactly zero, and so are the deviation and
/// the variance.
pub proof fn lemma_constant_is_stable(
    calc: Deviation,
    root: bool,
    x: Seq<i64>,
    level: int,
    n: int,
    overlapping: bool,
)
    requires
        is_constant(x, level),
        n >= 1,
        is_feasible(x.len() as int, n),
    ensures
        estimate_sum(calc, x, n, overlapping) == 0,
        estimate_of(calc, root, x, n, overlapping) matches Ok(e) && e.sum == 0,
{
    assert(is_ramp(x, level, 0)) by {
        assert forall|i: int| 0 <= i < x.len() implies #[trigger] x[i] == level + 0 * i by {
            assert(0 * i == 0);
        }
    }
    lemma_ramp_is_stable(calc, root, x, level, 0, n, overlapping);
}

/// Where each pairwise sum is the sum of the contributions of its two
/// clocks, the three-cornered hat gives each clock twice its own
/// contribution.
pub proof fn lemma_hat_separates_clocks(a: nat, b: nat, c: nat)
    ensures
        corner_sum((a + b) as int, (b + c) as int, (c + a) as int) == 2 * a,
        corner_sum((b + c) as int, (c + a) as int, (a + b) as int) == 2 * b,
        corner_sum((c + a) as int, (a + b) as int, (b + c) as int) == 2 * c,
{
}

} // verus!
