//! Clock stability statistics in exact integer arithmetic.
//!
//! A time series is a vector of `i64` phase readings, counted in ticks of the
//! instrument and taken at a fixed sampling interval. An averaging time `tau`
//! is a whole number of sampling intervals. Every estimator returns the exact
//! sum of squared differences together with the number of terms, so that no
//! rounding happens inside the library: dividing and taking the square root
//! is left to the caller.

use vstd::prelude::*;

pub mod laws;
pub mod model;
pub mod tau;
pub mod utils;

use crate::tau::{first_fault, is_tau_axis, lemma_no_fault_iff_valid, tau_sanity_checks};
use crate::utils::{cumsum_at, cumsum_fits, fractionnal_integral};
use crate::model::{
    allan_sum, allan_terms, is_feasible, lemma_allan_sum_monotonic, lemma_allan_terms_bounds,
    lemma_allan_terms_unique, lemma_modified_sum_monotonic, lemma_window_advances, modified_sum,
    modified_terms, modified_width, second_difference, stride_of, third_difference, window_sum,
};

verus! {

/// describes error related to deviation computations
#[derive(Clone, Copy, Debug, PartialEq, Eq, Structural)]
pub enum Error {
    /// `tau` axis error
    TauAxisEror(tau::Error),
    /// non feasible deviation - missing some more samples
    NotEnoughSamplesError,
    /// an exact sum does not fit the integers it is kept in
    OverflowError,
}

/// describes all known computations
#[derive(Clone, Copy, Debug, PartialEq, Eq, Structural)]
pub enum Deviation {
    /// `allan` deviation/variance
    Allan,
    /// `modified allan` deviation/variance
    Modified,
    /// `time` deviation/variance
    Time,
}

/// One point of a stability curve, in exact form.
///
/// The variance it stands for is the fraction `variance_num() / variance_den()`;
/// where `root` is set the estimate is a deviation, the square root of that
/// fraction. The error bar is the estimate divided by the square root of
/// `terms`; that of a time estimate is the error bar of the modified estimate
/// that it was scaled from. Its square is the fraction
/// `error_sq_num() / error_sq_den()`.
#[derive(Clone, Copy, Debug, PartialEq, Eq, Structural)]
pub struct Estimate {
    /// the computation that formed the estimate
    pub calc: Deviation,
    /// true for a deviation, false for a variance
    pub root: bool,
    /// the sum of the squared differences
    pub sum: u128,
    /// the number of squared differences in `sum`
    pub terms: usize,
    /// the averaging time, in sampling intervals
    pub tau: usize,
}

impl Estimate {
    /// The numerator of the variance.
    pub open spec fn variance_num(self) -> nat {
        self.sum as nat
    }

    /// The denominator of the variance: `2 * terms * tau^2`, and for the time
    /// variance, which is the modified variance times `tau^2 / 3`, `6 * terms`.
    pub open spec fn variance_den(self) -> nat {
        match self.calc {
            Deviation::Time => 6 * self.terms as nat,
            _ => self.base_den(),
        }
    }

    /// The denominator of the Allan and of the modified variance:
    /// `2 * terms * tau^2`.
    pub open spec fn base_den(self) -> nat {
        2 * self.terms as nat * self.tau as nat * self.tau as nat
    }

    /// The numerator of the square of the error bar.
    pub open spec fn error_sq_num(self) -> nat {
        if self.root {
            self.sum as nat
        } else {
            self.sum as nat * self.sum as nat
        }
    }

    /// The denominator of the square of the error bar.
    pub open spec fn error_sq_den(self) -> nat {
        if self.root {
            self.base_den() * self.terms as nat
        } else {
            self.base_den() * self.base_den() * self.terms as nat
        }
    }
}

/// The number of squared terms that `calc` sums at a `tau` of `n` samples.
pub open spec fn estimate_terms(calc: Deviation, len: int, n: int, overlapping: bool) -> int {
    match calc {
        Deviation::Allan => allan_terms(len, n, stride_of(n, overlapping)),
        _ => modified_terms(len, n),
    }
}

/// The exact sum of squares that `calc` forms at a `tau` of `n` samples.
pub open spec fn estimate_sum(calc: Deviation, x: Seq<i64>, n: int, overlapping: bool) -> int {
    match calc {
        Deviation::Allan => allan_sum(
            x,
            n,
            stride_of(n, overlapping),
            allan_terms(x.len() as int, n, stride_of(n, overlapping)) as nat,
        ),
        _ => modified_sum(
            x,
            n,
            modified_width(x.len() as int, n) as nat,
            modified_terms(x.len() as int, n) as nat,
        ),
    }
}

/// What an estimator returns for a series `x` at a `tau` of `n` samples:
/// `NotEnoughSamplesError` where `tau` is not feasible, `OverflowError` where
/// the exact sum needs more than 128 bits, and else the estimate.
pub open spec fn estimate_of(
    calc: Deviation,
    root: bool,
    x: Seq<i64>,
    n: int,
    overlapping: bool,
) -> Result<Estimate, Error> {
    if !is_feasible(x.len() as int, n) {
        Err(Error::NotEnoughSamplesError)
    } else if estimate_sum(calc, x, n, overlapping) > u128::MAX {
        Err(Error::OverflowError)
    } else {
        Ok(
            Estimate {
                calc,
                root,
                sum: estimate_sum(calc, x, n, overlapping) as u128,
                terms: estimate_terms(calc, x.len() as int, n, overlapping) as usize,
                tau: n as usize,
            },
        )
    }
}

/// Squares a difference, if the square fits 128 bits.
fn checked_square(d: i128) -> (r: Option<u128>)
    ensures
        r is Some <==> d * d <= u128::MAX,
        r matches Some(square) ==> square == d * d,
        r is Some ==> -0x1_0000_0000_0000_0000 < d < 0x1_0000_0000_0000_0000,
{
    if d >= 0x1_0000_0000_0000_0000 || d <= -0x1_0000_0000_0000_0000 {
        assert(d * d > u128::MAX) by (nonlinear_arith)
            requires
                d >= 0x1_0000_0000_0000_0000 || d <= -0x1_0000_0000_0000_0000,
        ;
        None
    } else {
        let m: u128 = if d < 0 {
            (-d) as u128
        } else {
            d as u128
        };
        assert(m * m <= u128::MAX && m * m == d * d) by (nonlinear_arith)
            requires
                m < 0x1_0000_0000_0000_0000,
                m == d || m == -d,
        ;
        Some(m * m)
    }
}

/// Computes Allan deviation
/// @ given tau on input data.
///
/// overlapping: true for overlapped deviation;
/// root: true for the deviation, false for the variance.
pub fn calc_adev(data: &Vec<i64>, tau: i64, overlapping: bool, root: bool) -> (r: Result<
    Estimate,
    Error,
>)
    requires
        tau > 0,
    ensures
        r == estimate_of(Deviation::Allan, root, data@, tau as int, overlapping),
{
    let len: usize = data.len();
    if len == 0 || tau as u64 > ((len - 1) / 2) as u64 {
        return Err(Error::NotEnoughSamplesError);
    }
    let n: usize = tau as usize;
    let stride: usize = if overlapping {
        1
    } else {
        n
    };
    let room: usize = len - 2 * n;
    let ghost total: int = allan_terms(len as int, n as int, stride as int);
    let mut i: usize = 0;
    let mut terms: usize = 0;
    let mut sum: u128 = 0;
    while i < room
        invariant
            len == data@.len(),
            n == tau,
            stride == stride_of(n as int, overlapping),
            1 <= stride <= n,
            room == len - 2 * n,
            room >= 1,
            total == allan_terms(len as int, n as int, stride as int),
            i == terms * stride,
            terms == 0 || (terms - 1) * stride < room,
            sum == allan_sum(data@, n as int, stride as int, terms as nat),
        decreases room + stride - i,
    {
        proof {
            lemma_allan_terms_bounds(len as int, n as int, stride as int);
            assert(terms < total && terms <= i) by (nonlinear_arith)
                requires
                    i == terms * stride,
                    i < room,
                    room <= total * stride,
                    stride >= 1,
            ;
            lemma_allan_sum_monotonic(
                data@,
                n as int,
                stride as int,
                (terms + 1) as nat,
                total as nat,
            );
        }
        let d: i128 = data[i + 2 * n] as i128 - 2 * (data[i + n] as i128) + data[i] as i128;
        assert(d == second_difference(data@, n as int, terms * stride));
        assert(allan_sum(data@, n as int, stride as int, (terms + 1) as nat) == sum + d * d);
        let square: u128 = match checked_square(d) {
            Some(square) => square,
            None => {
                return Err(Error::OverflowError);
            },
        };
        sum = match sum.checked_add(square) {
            Some(next) => next,
            None => {
                return Err(Error::OverflowError);
            },
        };
        assert((terms + 1) * stride == i + stride) by (nonlinear_arith)
            requires
                i == terms * stride,
        ;
        i += stride;
        terms += 1;
    }
    proof {
        lemma_allan_terms_unique(len as int, n as int, stride as int, terms as int);
    }
    Ok(Estimate { calc: Deviation::Allan, root, sum, terms, tau: n })
}

/// Computes modified Allan deviation
/// @ given tau on input data.
///
/// Mdev is always computed in overlapping fashion;
/// root: true for the deviation, false for the variance.
pub fn calc_mdev(data: &Vec<i64>, tau: i64, root: bool) -> (r: Result<Estimate, Error>)
    requires
        tau > 0,
    ensures
        r == estimate_of(Deviation::Modified, root, data@, tau as int, true),
{
    let len: usize = data.len();
    if len == 0 || tau as u64 > ((len - 1) / 2) as u64 {
        return Err(Error::NotEnoughSamplesError);
    }
    let n: usize = tau as usize;
    let room: usize = len - 2 * n;
    let width: usize = if room < n {
        room
    } else {
        n
    };
    let run: usize = if room > n {
        room - n
    } else {
        0
    };
    let ghost total: int = modified_terms(len as int, n as int);
    assert(total == run + 1);
    assert(width == modified_width(len as int, n as int));

    // the window at offset 0, summed in two halves that cannot overflow
    let mut i: usize = 0;
    let mut left: i128 = 0;
    let mut right: i128 = 0;
    while i < width
        invariant
            len == data@.len(),
            room == len - 2 * n,
            i <= width <= n,
            width <= room,
            n < 0x8000_0000_0000_0000,
            left + right == window_sum(data@, n as int, 0, i as nat),
            -0x1_0000_0000_0000_0000 * i <= left <= 0x1_0000_0000_0000_0000 * i,
            -0x1_0000_0000_0000_0000 * i <= right <= 0x1_0000_0000_0000_0000 * i,
        decreases width - i,
    {
        left = left + (data[i] as i128 - data[i + n] as i128);
        right = right + (data[i + 2 * n] as i128 - data[i + n] as i128);
        i += 1;
    }
    proof {
        // the first term alone is at most the whole sum
        lemma_modified_sum_monotonic(data@, n as int, width as nat, 1, total as nat);
        let w = window_sum(data@, n as int, 0, width as nat);
        assert(modified_sum(data@, n as int, width as nat, 1) == w * w) by {
            reveal_with_fuel(modified_sum, 2);
        }
        assert(w > i128::MAX || w < i128::MIN ==> w * w > u128::MAX) by (nonlinear_arith);
    }
    let mut v: i128 = match left.checked_add(right) {
        Some(v) => v,
        None => {
            return Err(Error::OverflowError);
        },
    };
    let mut sum: u128 = match checked_square(v) {
        Some(square) => square,
        None => {
            return Err(Error::OverflowError);
        },
    };

    // every later window, from the one before it
    let mut terms: usize = 1;
    i = 0;
    while i < run
        invariant
            len == data@.len(),
            room == len - 2 * n,
            n == tau,
            n >= 1,
            room >= 1,
            width == modified_width(len as int, n as int),
            total == modified_terms(len as int, n as int),
            i <= run,
            run > 0 ==> run == room - n && width == n,
            total == run + 1,
            terms == i + 1,
            v == window_sum(data@, n as int, i as int, width as nat),
            -0x1_0000_0000_0000_0000 < v < 0x1_0000_0000_0000_0000,
            sum == modified_sum(data@, n as int, width as nat, terms as nat),
        decreases run - i,
    {
        let near: usize = i + n;
        let mid: usize = near + n;
        let far: usize = mid + n;
        let d: i128 = data[far] as i128 - 3 * (data[mid] as i128) + 3 * (data[near] as i128)
            - data[i] as i128;
        assert(d == third_difference(data@, n as int, i as int));
        proof {
            lemma_window_advances(data@, n as nat, i as int);
            lemma_modified_sum_monotonic(
                data@,
                n as int,
                width as nat,
                (terms + 1) as nat,
                total as nat,
            );
        }
        v = v + d;
        assert(v == window_sum(data@, n as int, i + 1, width as nat));
        assert(modified_sum(data@, n as int, width as nat, (terms + 1) as nat) == sum + v * v);
        let square: u128 = match checked_square(v) {
            Some(square) => square,
            None => {
                return Err(Error::OverflowError);
            },
        };
        sum = match sum.checked_add(square) {
            Some(next) => next,
            None => {
                return Err(Error::OverflowError);
            },
        };
        i += 1;
        terms += 1;
    }
    Ok(Estimate { calc: Deviation::Modified, root, sum, terms, tau: n })
}

/// Computes `time` deviation at desired `tau` offset.
///
/// The sum and the number of terms are those of the modified estimator; the
/// estimate stands for the modified one times `tau / sqrt(3)`.
pub fn calc_tdev(data: &Vec<i64>, tau: i64, root: bool) -> (r: Result<Estimate, Error>)
    requires
        tau > 0,
    ensures
        r == estimate_of(Deviation::Time, root, data@, tau as int, true),
{
    match calc_mdev(data, tau, root) {
        Ok(m) => Ok(
            Estimate { calc: Deviation::Time, root: m.root, sum: m.sum, terms: m.terms, tau: m.tau },
        ),
        Err(e) => Err(e),
    }
}

/// The series that the estimators work on when the input is fractional: its
/// cumulative sum.
pub open spec fn integrated(data: Seq<i64>) -> Seq<i64> {
    Seq::new(data.len(), |i: int| cumsum_at(data, 1, i) as i64)
}

/// The index of the first `tau` at or after `from` that is not feasible on a
/// series of `len` samples; the length of the axis if there is none.
pub open spec fn feasible_prefix(taus: Seq<i64>, len: int, from: int) -> int
    decreases taus.len() - from,
{
    if 0 <= from < taus.len() && is_feasible(len, taus[from] as int) {
        feasible_prefix(taus, len, from + 1)
    } else {
        from
    }
}

/// The estimates for the feasible prefix of the axis, in axis order;
/// `OverflowError` if the exact sum of one of them needs more than 128 bits.
pub open spec fn curve_of(
    calc: Deviation,
    root: bool,
    x: Seq<i64>,
    taus: Seq<i64>,
    overlapping: bool,
) -> Result<Seq<Estimate>, Error> {
    let count = feasible_prefix(taus, x.len() as int, 0);
    if exists|i: int|
        0 <= i < count && estimate_sum(calc, x, #[trigger] taus[i] as int, overlapping)
            > u128::MAX {
        Err(Error::OverflowError)
    } else {
        Ok(
            Seq::new(
                count as nat,
                |i: int| estimate_of(calc, root, x, taus[i] as int, overlapping)->Ok_0,
            ),
        )
    }
}

/// What `deviation` (with `root` set) and `variance` (without) return: the
/// fault of the axis if it has one; else `OverflowError` if the input is
/// fractional and its cumulative sum leaves the `i64` range; else the curve
/// of the series, integrated first if it is fractional.
pub open spec fn stability_of(
    data: Seq<i64>,
    taus: Seq<i64>,
    calc: Deviation,
    root: bool,
    is_fractional: bool,
    overlapping: bool,
) -> Result<Seq<Estimate>, Error> {
    match first_fault(taus) {
        Some(e) => Err(Error::TauAxisEror(e)),
        None => if !is_fractional {
            curve_of(calc, root, data, taus, overlapping)
        } else if cumsum_fits(data, 1) {
            curve_of(calc, root, integrated(data), taus, overlapping)
        } else {
            Err(Error::OverflowError)
        },
    }
}

/// The result of a run, with the vector seen as a sequence.
pub open spec fn curve_view(r: Result<Vec<Estimate>, Error>) -> Result<Seq<Estimate>, Error> {
    match r {
        Ok(estimates) => Ok(estimates@),
        Err(e) => Err(e),
    }
}

/// The feasible prefix ends inside the axis, every `tau` in it is feasible,
/// and the `tau` that follows it, if there is one, is not.
pub proof fn lemma_feasible_prefix(taus: Seq<i64>, len: int, from: int)
    requires
        0 <= from <= taus.len(),
    ensures
        from <= feasible_prefix(taus, len, from) <= taus.len(),
        forall|i: int|
            from <= i < feasible_prefix(taus, len, from) ==> is_feasible(
                len,
                #[trigger] taus[i] as int,
            ),
        feasible_prefix(taus, len, from) < taus.len() ==> !is_feasible(
            len,
            taus[feasible_prefix(taus, len, from)] as int,
        ),
    decreases taus.len() - from,
{
    if from < taus.len() && is_feasible(len, taus[from] as int) {
        lemma_feasible_prefix(taus, len, from + 1);
    }
}

/// On a valid axis no `tau` beyond the feasible prefix is feasible: the
/// estimates stop at the first `tau` that is too large, and nothing that
/// could have been estimated is left out.
pub proof fn lemma_truncation_is_complete(taus: Seq<i64>, len: int)
    requires
        is_tau_axis(taus),
    ensures
        forall|i: int|
            feasible_prefix(taus, len, 0) <= i < taus.len() ==> !is_feasible(
                len,
                #[trigger] taus[i] as int,
            ),
{
    let count = feasible_prefix(taus, len, 0);
    lemma_feasible_prefix(taus, len, 0);
    assert forall|i: int| count <= i < taus.len() implies !is_feasible(
        len,
        #[trigger] taus[i] as int,
    ) by {
        lemma_axis_increases(taus, count, i);
    }
}

/// The values of a valid axis are in increasing order.
pub proof fn lemma_axis_increases(taus: Seq<i64>, i: int, j: int)
    requires
        is_tau_axis(taus),
        0 <= i <= j < taus.len(),
    ensures
        taus[i] <= taus[j],
    decreases j - i,
{
    if i < j {
        lemma_axis_increases(taus, i, j - 1);
        assert(taus[j - 1] < taus[j]);
    }
}

/// Counts the `tau`s at the start of the axis that are feasible on a series
/// of `len` samples: the number of estimates that `deviation` and `variance`
/// give for such a series.
pub fn feasible_taus(taus: &Vec<i64>, len: usize) -> (count: usize)
    ensures
        count == feasible_prefix(taus@, len as int, 0),
{
    let mut i: usize = 0;
    while i < taus.len() && 2 * (taus[i] as i128) < len as i128
        invariant
            i <= taus@.len(),
            feasible_prefix(taus@, len as int, 0) == feasible_prefix(taus@, len as int, i as int),
        decreases taus@.len() - i,
    {
        i += 1;
    }
    i
}

/// Runs the estimator selected by `calc` over the axis, in axis order, and
/// stops at the first `tau` that is not feasible.
fn curve(
    series: &Vec<i64>,
    taus: &Vec<i64>,
    calc: Deviation,
    overlapping: bool,
    root: bool,
) -> (r: Result<Vec<Estimate>, Error>)
    requires
        is_tau_axis(taus@),
    ensures
        curve_view(r) == curve_of(calc, root, series@, taus@, overlapping),
{
    let ghost len: int = series@.len() as int;
    let mut out: Vec<Estimate> = Vec::new();
    let mut i: usize = 0;
    let mut more: bool = true;
    while more && i < taus.len()
        invariant
            is_tau_axis(taus@),
            len == series@.len(),
            i <= taus@.len(),
            out@.len() == i,
            more ==> feasible_prefix(taus@, len, 0) == feasible_prefix(taus@, len, i as int),
            !more ==> feasible_prefix(taus@, len, 0) == i,
            forall|j: int|
                0 <= j < i ==> estimate_of(calc, root, series@, #[trigger] taus@[j] as int, overlapping)
                    == Ok::<Estimate, Error>(out@[j]),
        decreases taus@.len() - i + (if more { 1int } else { 0int }),
    {
        let tau: i64 = taus[i];
        let estimate = match calc {
            Deviation::Allan => calc_adev(series, tau, overlapping, root),
            Deviation::Modified => calc_mdev(series, tau, root),
            Deviation::Time => calc_tdev(series, tau, root),
        };
        assert(estimate == estimate_of(calc, root, series@, tau as int, overlapping));
        match estimate {
            Ok(e) => {
                out.push(e);
                i += 1;
            },
            Err(Error::NotEnoughSamplesError) => {
                more = false;
            },
            Err(e) => {
                proof {
                    lemma_feasible_prefix(taus@, len, i + 1);
                    assert(estimate_sum(calc, series@, taus@[i as int] as int, overlapping)
                        > u128::MAX);
                }
                return Err(e);
            },
        }
    }
    proof {
        let count = feasible_prefix(taus@, len, 0);
        assert(count == i);
        assert forall|j: int| 0 <= j < count implies !(estimate_sum(
            calc,
            series@,
            #[trigger] taus@[j] as int,
            overlapping,
        ) > u128::MAX) by {
            assert(estimate_of(calc, root, series@, taus@[j] as int, overlapping) is Ok);
        }
        assert(out@ =~= Seq::new(
            count as nat,
            |j: int| estimate_of(calc, root, series@, taus@[j] as int, overlapping)->Ok_0,
        ));
    }
    Ok(out)
}

/// Validates the axis, integrates the series if it is fractional, and runs
/// the estimator over the axis.
fn run(
    data: &Vec<i64>,
    taus: &Vec<i64>,
    calc: Deviation,
    is_fractional: bool,
    overlapping: bool,
    root: bool,
) -> (r: Result<Vec<Estimate>, Error>)
    ensures
        curve_view(r) == stability_of(data@, taus@, calc, root, is_fractional, overlapping),
{
    match tau_sanity_checks(taus) {
        Ok(()) => {},
        Err(e) => {
            return Err(Error::TauAxisEror(e));
        },
    }
    if is_fractional {
        match fractionnal_integral(data.clone(), 1) {
            Some(series) => {
                assert(series@ =~= integrated(data@));
                curve(&series, taus, calc, overlapping, root)
            },
            None => Err(Error::OverflowError),
        }
    } else {
        curve(data, taus, calc, overlapping, root)
    }
}

/// Computes desired deviation of given input data
/// for desired tau values.
///
/// data: input vector;
/// taus: desired `tau` offsets, in sampling intervals;
/// is_fractional: true if input vector is made of fractional (n.a) data;
/// overlapping: true if using overlapping interval (increase confidence / errbar narrows down faster).
/// returns: the deviation, in exact form, for each feasible `tau`
///
/// The axis is validated first. The estimates follow the axis and stop at
/// the first `tau` that is too large for the series: that is no error.
pub fn deviation(
    data: &Vec<i64>,
    taus: &Vec<i64>,
    calc: Deviation,
    is_fractional: bool,
    overlapping: bool,
) -> (r: Result<Vec<Estimate>, Error>)
    ensures
        curve_view(r) == stability_of(data@, taus@, calc, true, is_fractional, overlapping),
        r is Ok ==> is_tau_axis(taus@),
        r matches Ok(estimates) ==> estimates@.len() == feasible_prefix(
            taus@,
            data@.len() as int,
            0,
        ),
        !(r matches Err(Error::NotEnoughSamplesError)),
{
    proof {
        lemma_no_fault_iff_valid(taus@);
        lemma_feasible_prefix(taus@, data@.len() as int, 0);
        assert(integrated(data@).len() == data@.len());
    }
    run(data, taus, calc, is_fractional, overlapping, true)
}

/// Computes desired variance of given input data
/// for desired tau values.
///
/// data: input vector;
/// taus: desired `tau` offsets, in sampling intervals;
/// is_fractional: true if input vector is made of fractional (n.a) data;
/// overlapping: true if using overlapping interval (increase confidence / errbar narrows down faster).
/// returns: the variance, in exact form, for each feasible `tau`
///
/// The sums and the numbers of terms are those of `deviation`; the estimates
/// are marked as variances, so that no square root is taken and squared again.
pub fn variance(
    data: &Vec<i64>,
    taus: &Vec<i64>,
    calc: Deviation,
    is_fractional: bool,
    overlapping: bool,
) -> (r: Result<Vec<Estimate>, Error>)
    ensures
        curve_view(r) == stability_of(data@, taus@, calc, false, is_fractional, overlapping),
        r is Ok ==> is_tau_axis(taus@),
        r matches Ok(estimates) ==> estimates@.len() == feasible_prefix(
            taus@,
            data@.len() as int,
            0,
        ),
        !(r matches Err(Error::NotEnoughSamplesError)),
{
    proof {
        lemma_no_fault_iff_valid(taus@);
        lemma_feasible_prefix(taus@, data@.len() as int, 0);
        assert(integrated(data@).len() == data@.len());
    }
    run(data, taus, calc, is_fractional, overlapping, false)
}

/// Twice the variance of one clock, as a multiple of the unit of the three
/// pairwise variances `x`, `y` and `z`: `x - y + z`, and 0 where that is
/// negative.
pub open spec fn corner_sum(x: int, y: int, z: int) -> int {
    if x - y + z < 0 {
        0
    } else {
        x - y + z
    }
}

/// Combines three pairwise sums into the sum of one clock: `x - y + z`,
/// where `x` and `z` are the sums of the two pairs that the clock is part of.
///
/// Three measurements that contradict each other can make `x - y + z`
/// negative; no deviation is the square root of that, and the result is then 0.
/// Returns `None` exactly when the result needs more than 128 bits.
pub fn corner(x: u128, y: u128, z: u128) -> (r: Option<u128>)
    ensures
        r is Some <==> corner_sum(x as int, y as int, z as int) <= u128::MAX,
        r matches Some(sum) ==> sum == corner_sum(x as int, y as int, z as int),
{
    if x >= y {
        (x - y).checked_add(z)
    } else if z >= y - x {
        Some(z - (y - x))
    } else {
        Some(0)
    }
}

/// The sum of a pairwise estimate brought to the denominator that the three
/// estimates have in common: it is multiplied by the numbers of terms of the
/// two others.
pub open spec fn weighted_sum(x: Estimate, y: Estimate, z: Estimate) -> int {
    x.sum * (y.terms * z.terms)
}

/// The sum of the clock that the pairs of `x` and `z` share, from the
/// variance estimates of the three pairs at one `tau`.
///
/// With `var` for `variance_num() / variance_den()`, the variance of that
/// clock is `(var(x) - var(y) + var(z)) / 2`, and 0 where that is negative:
/// it is the fraction `clock_sum(x, y, z) / clock_den(x, y, z)`.
pub open spec fn clock_sum(x: Estimate, y: Estimate, z: Estimate) -> int {
    corner_sum(weighted_sum(x, y, z), weighted_sum(y, z, x), weighted_sum(z, x, y))
}

/// The denominator that goes with `clock_sum`.
pub open spec fn clock_den(x: Estimate, y: Estimate, z: Estimate) -> nat {
    2 * x.variance_den() * y.terms as nat * z.terms as nat
}

/// The sums of one clock along the curve, from the three pairwise curves.
pub open spec fn clock_sums(x: Seq<Estimate>, y: Seq<Estimate>, z: Seq<Estimate>) -> Seq<u128> {
    Seq::new(x.len(), |i: int| clock_sum(x[i], y[i], z[i]) as u128)
}

/// Every weighted sum and every sum of a clock, at one `tau`, fits 128 bits.
pub open spec fn hat_fits_at(x: Estimate, y: Estimate, z: Estimate) -> bool {
    &&& weighted_sum(x, y, z) <= u128::MAX
    &&& weighted_sum(y, z, x) <= u128::MAX
    &&& weighted_sum(z, x, y) <= u128::MAX
    &&& clock_sum(x, y, z) <= u128::MAX
    &&& clock_sum(y, z, x) <= u128::MAX
    &&& clock_sum(z, x, y) <= u128::MAX
}

/// Every weighted sum and every sum of a clock, along the curve, fits 128 bits.
pub open spec fn hat_fits(ab: Seq<Estimate>, bc: Seq<Estimate>, ca: Seq<Estimate>) -> bool {
    forall|i: int| 0 <= i < ab.len() ==> hat_fits_at(#[trigger] ab[i], bc[i], ca[i])
}

/// The sums of the clocks a, b and c from the variance curves of the pairs
/// (a, b), (b, c) and (c, a): the first error among the three curves, in that
/// order; else `OverflowError` if one of the sums needs more than 128 bits.
pub open spec fn hat_of(
    ab: Result<Seq<Estimate>, Error>,
    bc: Result<Seq<Estimate>, Error>,
    ca: Result<Seq<Estimate>, Error>,
) -> Result<(Seq<u128>, Seq<u128>, Seq<u128>), Error> {
    match ab {
        Err(e) => Err(e),
        Ok(x) => match bc {
            Err(e) => Err(e),
            Ok(y) => match ca {
                Err(e) => Err(e),
                Ok(z) => if hat_fits(x, y, z) {
                    Ok((clock_sums(x, y, z), clock_sums(y, z, x), clock_sums(z, x, y)))
                } else {
                    Err(Error::OverflowError)
                },
            },
        },
    }
}

/// Brings the sum of `x` to the common denominator of `x`, `y` and `z`.
fn weighted(x: &Estimate, y: &Estimate, z: &Estimate) -> (r: Option<u128>)
    ensures
        r is Some <==> weighted_sum(*x, *y, *z) <= u128::MAX,
        r matches Some(sum) ==> sum == weighted_sum(*x, *y, *z),
{
    assert(y.terms * z.terms <= u128::MAX) by (nonlinear_arith)
        requires
            y.terms <= 0xffff_ffff_ffff_ffff,
            z.terms <= 0xffff_ffff_ffff_ffff,
    ;
    let weight: u128 = (y.terms as u128) * (z.terms as u128);
    x.sum.checked_mul(weight)
}

/// The sums of the three clocks at one `tau`, from the variance estimates of
/// the pairs (a, b), (b, c) and (c, a).
fn hat_at(ab: &Estimate, bc: &Estimate, ca: &Estimate) -> (r: Option<(u128, u128, u128)>)
    ensures
        r is Some <==> hat_fits_at(*ab, *bc, *ca),
        r matches Some((a, b, c)) ==> {
            &&& a == clock_sum(*ab, *bc, *ca)
            &&& b == clock_sum(*bc, *ca, *ab)
            &&& c == clock_sum(*ca, *ab, *bc)
        },
{
    let x: u128 = match weighted(ab, bc, ca) {
        Some(sum) => sum,
        None => {
            return None;
        },
    };
    let y: u128 = match weighted(bc, ca, ab) {
        Some(sum) => sum,
        None => {
            return None;
        },
    };
    let z: u128 = match weighted(ca, ab, bc) {
        Some(sum) => sum,
        None => {
            return None;
        },
    };
    let a: u128 = match corner(x, y, z) {
        Some(sum) => sum,
        None => {
            return None;
        },
    };
    let b: u128 = match corner(y, z, x) {
        Some(sum) => sum,
        None => {
            return None;
        },
    };
    let c: u128 = match corner(z, x, y) {
        Some(sum) => sum,
        None => {
            return None;
        },
    };
    Some((a, b, c))
}

/// Computes desired statistics in `Three Cornerned Hat` fashion.
///
/// data_ab: A against B data;
/// data_bc: B against C data;
/// data_ca: C against A data;
/// taus: desired tau offsets;
/// is_fractional: true if measured data are fractional errors;
/// overlapping: true if computing in overlapped fashion;
/// calc: which deviation to compute.
/// returns ((sum_a, var_ab), (sum_b, var_bc), (sum_c, var_ca)),
/// for all feasible tau offsets.
///
/// `var_ab` is the variance curve of the pair (a, b), whose error bar stands
/// in for that of clock a. The deviation of clock a at `taus[i]` is the
/// square root of `sum_a[i] / clock_den(var_ab[i], var_bc[i], var_ca[i])`.
/// Measurements that contradict each other can make the variance of a clock
/// negative: its sum is then 0.
///
/// On a valid axis the three series must have the same feasible `tau`s, as
/// three series of one length have.
pub fn three_cornered_hat(
    data_ab: &Vec<i64>,
    data_bc: &Vec<i64>,
    data_ca: &Vec<i64>,
    taus: &Vec<i64>,
    is_fractional: bool,
    overlapping: bool,
    calc: Deviation,
) -> (r: Result<
    ((Vec<u128>, Vec<Estimate>), (Vec<u128>, Vec<Estimate>), (Vec<u128>, Vec<Estimate>)),
    Error,
>)
    requires
        is_tau_axis(taus@) ==> feasible_prefix(taus@, data_ab@.len() as int, 0) == feasible_prefix(
            taus@,
            data_bc@.len() as int,
            0,
        ) && feasible_prefix(taus@, data_bc@.len() as int, 0) == feasible_prefix(
            taus@,
            data_ca@.len() as int,
            0,
        ),
    ensures
        match r {
            Ok(((sum_a, var_ab), (sum_b, var_bc), (sum_c, var_ca))) => {
                &&& stability_of(data_ab@, taus@, calc, false, is_fractional, overlapping) == Ok::<
                    Seq<Estimate>,
                    Error,
                >(var_ab@)
                &&& stability_of(data_bc@, taus@, calc, false, is_fractional, overlapping) == Ok::<
                    Seq<Estimate>,
                    Error,
                >(var_bc@)
                &&& stability_of(data_ca@, taus@, calc, false, is_fractional, overlapping) == Ok::<
                    Seq<Estimate>,
                    Error,
                >(var_ca@)
                &&& var_ab@.len() == var_bc@.len() == var_ca@.len()
                &&& hat_fits(var_ab@, var_bc@, var_ca@)
                &&& sum_a@ == clock_sums(var_ab@, var_bc@, var_ca@)
                &&& sum_b@ == clock_sums(var_bc@, var_ca@, var_ab@)
                &&& sum_c@ == clock_sums(var_ca@, var_ab@, var_bc@)
            },
            Err(e) => hat_of(
                stability_of(data_ab@, taus@, calc, false, is_fractional, overlapping),
                stability_of(data_bc@, taus@, calc, false, is_fractional, overlapping),
                stability_of(data_ca@, taus@, calc, false, is_fractional, overlapping),
            ) == Err::<(Seq<u128>, Seq<u128>, Seq<u128>), Error>(e),
        },
{
    let var_ab = match variance(data_ab, taus, calc, is_fractional, overlapping) {
        Ok(v) => v,
        Err(e) => {
            return Err(e);
        },
    };
    let var_bc = match variance(data_bc, taus, calc, is_fractional, overlapping) {
        Ok(v) => v,
        Err(e) => {
            return Err(e);
        },
    };
    let var_ca = match variance(data_ca, taus, calc, is_fractional, overlapping) {
        Ok(v) => v,
        Err(e) => {
            return Err(e);
        },
    };
    let mut a: Vec<u128> = Vec::with_capacity(var_ab.len());
    let mut b: Vec<u128> = Vec::with_capacity(var_ab.len());
    let mut c: Vec<u128> = Vec::with_capacity(var_ab.len());
    let mut i: usize = 0;
    while i < var_ab.len()
        invariant
            var_ab@.len() == var_bc@.len(),
            var_bc@.len() == var_ca@.len(),
            i <= var_ab@.len(),
            a@.len() == i,
            b@.len() == i,
            c@.len() == i,
            forall|j: int|
                0 <= j < i ==> {
                    &&& hat_fits_at(#[trigger] var_ab@[j], var_bc@[j], var_ca@[j])
                    &&& clock_sum(var_ab@[j], var_bc@[j], var_ca@[j]) == a@[j]
                    &&& clock_sum(var_bc@[j], var_ca@[j], var_ab@[j]) == b@[j]
                    &&& clock_sum(var_ca@[j], var_ab@[j], var_bc@[j]) == c@[j]
                },
            stability_of(data_ab@, taus@, calc, false, is_fractional, overlapping) == Ok::<
                Seq<Estimate>,
                Error,
            >(var_ab@),
            stability_of(data_bc@, taus@, calc, false, is_fractional, overlapping) == Ok::<
                Seq<Estimate>,
                Error,
            >(var_bc@),
            stability_of(data_ca@, taus@, calc, false, is_fractional, overlapping) == Ok::<
                Seq<Estimate>,
                Error,
            >(var_ca@),
        decreases var_ab@.len() - i,
    {
        match hat_at(&var_ab[i], &var_bc[i], &var_ca[i]) {
            Some((sum_a, sum_b, sum_c)) => {
                a.push(sum_a);
                b.push(sum_b);
                c.push(sum_c);
            },
            None => {
                assert(!hat_fits_at(var_ab@[i as int], var_bc@[i as int], var_ca@[i as int]));
                return Err(Error::OverflowError);
            },
        }
        i += 1;
    }
    proof {
        assert(a@ =~= clock_sums(var_ab@, var_bc@, var_ca@));
        assert(b@ =~= clock_sums(var_bc@, var_ca@, var_ab@));
        assert(c@ =~= clock_sums(var_ca@, var_ab@, var_bc@));
    }
    Ok(((a, var_ab), (b, var_bc), (c, var_ca)))
}

/// Structure optimized for `real time` / `rolling` computation.
///
/// It keeps the samples pushed so far and a ladder of `tau`s that doubles
/// each time the buffer has grown long enough for the next `tau`. It forms no
/// estimate yet.
#[derive(Debug)]
pub struct RealTime {
    tau0: u64,
    buffer: Vec<i64>,
    taus: Vec<usize>,
    devs: Vec<Estimate>,
}

/// What a `RealTime` core holds.
pub struct RealTimeView {
    /// the sampling period that the core was built with
    pub tau0: u64,
    /// the samples pushed so far, oldest first
    pub buffer: Seq<i64>,
    /// the ladder of `tau`s
    pub taus: Seq<usize>,
    /// the estimates formed so far
    pub devs: Seq<Estimate>,
}

impl View for RealTime {
    type V = RealTimeView;

    closed spec fn view(&self) -> RealTimeView {
        RealTimeView {
            tau0: self.tau0,
            buffer: self.buffer@,
            taus: self.taus@,
            devs: self.devs@,
        }
    }
}

/// The ladder takes one more `tau`, twice its last one, when a buffer of
/// `filled` samples holds more than twice as many samples as its last `tau`.
pub open spec fn ladder_grows(taus: Seq<usize>, filled: nat) -> bool {
    &&& taus.len() > 0
    &&& 2 * taus.last() + 1 <= usize::MAX
    &&& filled >= 2 * taus.last() + 1
}

/// The ladder after a push that left `filled` samples in the buffer.
pub open spec fn ladder_after(taus: Seq<usize>, filled: nat) -> Seq<usize> {
    if ladder_grows(taus, filled) {
        taus.push((2 * taus.last()) as usize)
    } else {
        taus
    }
}

impl RealTime {
    /// Builds a new `real time` core.
    /// tau_0: sampling period
    pub fn new(tau_0: u64) -> (core: RealTime)
        ensures
            core@.tau0 == tau_0,
            core@.buffer == Seq::<i64>::empty(),
            core@.taus == seq![tau_0 as usize],
            core@.devs == Seq::<Estimate>::empty(),
    {
        let mut taus: Vec<usize> = Vec::new();
        taus.push(#[verifier::truncate] (tau_0 as usize));
        let core = RealTime { tau0: tau_0, buffer: Vec::new(), taus, devs: Vec::new() };
        assert(core.taus@ =~= seq![tau_0 as usize]);
        core
    }

    /// Pushes 1 symbol into the core
    pub fn push(&mut self, sample: i64)
        ensures
            final(self)@.tau0 == old(self)@.tau0,
            final(self)@.buffer == old(self)@.buffer.push(sample),
            final(self)@.taus == ladder_after(old(self)@.taus, final(self)@.buffer.len()),
            final(self)@.devs == old(self)@.devs,
    {
        self.buffer.push(sample);
        if self.new_tau() {
            let last: usize = self.taus[self.taus.len() - 1];
            self.taus.push(last * 2);
        }
    }

    /// Pushes n symbols into the core
    pub fn push_n(&mut self, samples: &Vec<i64>)
        ensures
            final(self)@.tau0 == old(self)@.tau0,
            final(self)@.buffer == old(self)@.buffer + samples@,
            final(self)@.taus == ladder_after(old(self)@.taus, final(self)@.buffer.len()),
            final(self)@.devs == old(self)@.devs,
    {
        let mut i: usize = 0;
        while i < samples.len()
            invariant
                i <= samples@.len(),
                self@.tau0 == old(self)@.tau0,
                self@.buffer == old(self)@.buffer + samples@.take(i as int),
                self@.taus == old(self)@.taus,
                self@.devs == old(self)@.devs,
            decreases samples@.len() - i,
        {
            self.buffer.push(samples[i]);
            assert(samples@.take(i + 1) =~= samples@.take(i as int).push(samples@[i as int]));
            assert(self@.buffer =~= old(self)@.buffer + samples@.take(i + 1));
            i += 1;
        }
        assert(samples@.take(i as int) =~= samples@);
        if self.new_tau() {
            let last: usize = self.taus[self.taus.len() - 1];
            self.taus.push(last * 2);
        }
    }

    /// Returns (taus, devs) pair:
    /// taus: currently evaluated time offsets;
    /// devs: related estimates, each with its error bar
    pub fn get(&self) -> (r: (&Vec<usize>, &Vec<Estimate>))
        ensures
            r.0@ == self@.taus,
            r.1@ == self@.devs,
    {
        (&self.taus, &self.devs)
    }

    fn new_tau(&self) -> (grows: bool)
        ensures
            grows == ladder_grows(self@.taus, self@.buffer.len()),
    {
        if self.taus.len() == 0 {
            return false;
        }
        let last: usize = self.taus[self.taus.len() - 1];
        last <= (usize::MAX - 1) / 2 && self.buffer.len() >= 2 * last + 1
    }

    /// Resets internal core
    pub fn reset(&mut self)
        ensures
            final(self)@.tau0 == old(self)@.tau0,
            final(self)@.buffer == Seq::<i64>::empty(),
            final(self)@.taus == Seq::<usize>::empty(),
            final(self)@.devs == Seq::<Estimate>::empty(),
    {
        self.buffer.clear();
        self.taus.clear();
        self.devs.clear()
    }
}

} // verus!
