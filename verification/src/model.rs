//! The mathematics of the estimators: second differences of a time series and
//! the sums of squares formed from them, over unbounded integers.

use vstd::prelude::*;

verus! {

/// The second difference of the series at `offset`, taken with spacing `n`.
pub open spec fn second_difference(x: Seq<i64>, n: int, offset: int) -> int {
    x[offset] - 2 * x[offset + n] + x[offset + 2 * n]
}

/// The third difference of the series at `offset`, taken with spacing `n`:
/// the second difference at `offset + n` minus the one at `offset`.
pub open spec fn third_difference(x: Seq<i64>, n: int, offset: int) -> int {
    x[offset + 3 * n] - 3 * x[offset + 2 * n] + 3 * x[offset + n] - x[offset]
}

/// A `tau` of `n` samples can be evaluated on a series of `len` samples when
/// `n <= (len - 1) / 2`, that is when at least one second difference exists.
pub open spec fn is_feasible(len: int, n: int) -> bool {
    2 * n < len
}

/// The distance between the offsets of two consecutive terms of the Allan sum.
pub open spec fn stride_of(n: int, overlapping: bool) -> int {
    if overlapping {
        1
    } else {
        n
    }
}

/// The number of offsets `0, stride, 2 * stride, ...` that leave room for a
/// second difference with spacing `n` in a series of `len` samples.
pub open spec fn allan_terms(len: int, n: int, stride: int) -> int {
    (len - 2 * n + stride - 1) / stride
}

/// The sum of the first `terms` squared second differences, taken at the
/// offsets `0, stride, 2 * stride, ...`.
pub open spec fn allan_sum(x: Seq<i64>, n: int, stride: int, terms: nat) -> int
    decreases terms,
{
    if terms == 0 {
        0
    } else {
        let d = second_difference(x, n, (terms - 1) * stride);
        allan_sum(x, n, stride, (terms - 1) as nat) + d * d
    }
}

/// The sum of the `width` second differences that start at `start`.
pub open spec fn window_sum(x: Seq<i64>, n: int, start: int, width: nat) -> int
    decreases width,
{
    if width == 0 {
        0
    } else {
        window_sum(x, n, start, (width - 1) as nat) + second_difference(x, n, start + width - 1)
    }
}

/// The width of the averaging window of the modified estimator: `n` second
/// differences, or as many as the series has room for.
pub open spec fn modified_width(len: int, n: int) -> int {
    if len - 2 * n < n {
        len - 2 * n
    } else {
        n
    }
}

/// The number of window positions of the modified estimator: the window at
/// offset 0, and one more for every sample beyond `3 * n`.
pub open spec fn modified_terms(len: int, n: int) -> int {
    if len > 3 * n {
        len - 3 * n + 1
    } else {
        1
    }
}

/// The sum of the squared window sums at the offsets `0, 1, ..., terms - 1`.
pub open spec fn modified_sum(x: Seq<i64>, n: int, width: nat, terms: nat) -> int
    decreases terms,
{
    if terms == 0 {
        0
    } else {
        let w = window_sum(x, n, terms - 1, width);
        modified_sum(x, n, width, (terms - 1) as nat) + w * w
    }
}

/// The Allan sum is never negative.
pub proof fn lemma_allan_sum_nonnegative(x: Seq<i64>, n: int, stride: int, terms: nat)
    ensures
        0 <= allan_sum(x, n, stride, terms),
    decreases terms,
{
    if terms > 0 {
        lemma_allan_sum_nonnegative(x, n, stride, (terms - 1) as nat);
        let d = second_difference(x, n, (terms - 1) * stride);
        assert(d * d >= 0) by (nonlinear_arith);
    }
}

/// The Allan sum never shrinks when terms are added.
pub proof fn lemma_allan_sum_monotonic(x: Seq<i64>, n: int, stride: int, few: nat, many: nat)
    requires
        few <= many,
    ensures
        0 <= allan_sum(x, n, stride, few) <= allan_sum(x, n, stride, many),
    decreases many,
{
    lemma_allan_sum_nonnegative(x, n, stride, few);
    if few < many {
        lemma_allan_sum_monotonic(x, n, stride, few, (many - 1) as nat);
        let d = second_difference(x, n, (many - 1) * stride);
        assert(d * d >= 0) by (nonlinear_arith);
    }
}

/// The modified sum is never negative.
pub proof fn lemma_modified_sum_nonnegative(x: Seq<i64>, n: int, width: nat, terms: nat)
    ensures
        0 <= modified_sum(x, n, width, terms),
    decreases terms,
{
    if terms > 0 {
        lemma_modified_sum_nonnegative(x, n, width, (terms - 1) as nat);
        let w = window_sum(x, n, terms - 1, width);
        assert(w * w >= 0) by (nonlinear_arith);
    }
}

/// The modified sum never shrinks when terms are added.
pub proof fn lemma_modified_sum_monotonic(x: Seq<i64>, n: int, width: nat, few: nat, many: nat)
    requires
        few <= many,
    ensures
        0 <= modified_sum(x, n, width, few) <= modified_sum(x, n, width, many),
    decreases many,
{
    lemma_modified_sum_nonnegative(x, n, width, few);
    if few < many {
        lemma_modified_sum_monotonic(x, n, width, few, (many - 1) as nat);
        let w = window_sum(x, n, many - 1, width);
        assert(w * w >= 0) by (nonlinear_arith);
    }
}

/// Moving the window one sample forward drops its first second difference
/// and takes in the one that follows its last.
pub proof fn lemma_window_slides(x: Seq<i64>, n: int, start: int, width: nat)
    ensures
        window_sum(x, n, start + 1, width) == window_sum(x, n, start, width) + second_difference(
            x,
            n,
            start + width,
        ) - second_difference(x, n, start),
    decreases width,
{
    if width > 0 {
        lemma_window_slides(x, n, start, (width - 1) as nat);
    }
}

/// A window of `n` second differences moves one sample forward by adding
/// the third difference at its start.
pub proof fn lemma_window_advances(x: Seq<i64>, n: nat, start: int)
    ensures
        window_sum(x, n as int, start + 1, n) == window_sum(x, n as int, start, n)
            + third_difference(x, n as int, start),
{
    lemma_window_slides(x, n as int, start, n);
}

/// The number of terms of the Allan sum is the only `k` whose last offset
/// still leaves room for a second difference while the next one does not.
pub proof fn lemma_allan_terms_unique(len: int, n: int, stride: int, k: int)
    requires
        stride >= 1,
        (k - 1) * stride < len - 2 * n <= k * stride,
    ensures
        allan_terms(len, n, stride) == k,
{
    let m = len - 2 * n + stride - 1;
    assert(k * stride <= m < (k + 1) * stride) by (nonlinear_arith)
        requires
            m == len - 2 * n + stride - 1,
            (k - 1) * stride < len - 2 * n <= k * stride,
            stride >= 1,
    ;
    vstd::arithmetic::div_mod::lemma_div_multiples_vanish_fancy(k, m - k * stride, stride);
    assert(stride * k + (m - k * stride) == m) by (nonlinear_arith);
}

/// The last of the offsets counted by `allan_terms` leaves room for a second
/// difference, and the offset after it does not.
pub proof fn lemma_allan_terms_bounds(len: int, n: int, stride: int)
    requires
        stride >= 1,
    ensures
        (allan_terms(len, n, stride) - 1) * stride < len - 2 * n <= allan_terms(len, n, stride)
            * stride,
{
    let m = len - 2 * n + stride - 1;
    let t = m / stride;
    vstd::arithmetic::div_mod::lemma_fundamental_div_mod(m, stride);
    vstd::arithmetic::div_mod::lemma_mod_bound(m, stride);
    assert((t - 1) * stride < len - 2 * n <= t * stride) by (nonlinear_arith)
        requires
            m == stride * t + (m % stride),
            0 <= m % stride < stride,
            m == len - 2 * n + stride - 1,
    ;
}

} // verus!
