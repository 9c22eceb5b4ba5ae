//! The `tau` axis: the averaging times at which a statistic is evaluated.

use vstd::arithmetic::power::pow;
use vstd::prelude::*;

verus! {

/// Lists all `TauAxis` known to the generator
#[derive(Clone, Copy, Debug, PartialEq, Eq, Structural)]
pub enum TauAxis {
    /// powers of two times the first value
    Octave,
    /// powers of ten times the first value
    Decade,
    /// every whole number of sampling intervals
    All,
}

/// `TauAxis` related errors
#[derive(Clone, Copy, Debug, PartialEq, Eq, Structural)]
pub enum Error {
    /// encountered non valid `tau` < 0 value
    NegativeTauValue,
    /// encountered non valid `tau` == 0
    NullTauValue,
    /// `tau` axis should only comprise increasing values
    InvalidTauShape,
}

impl Default for TauAxis {
    /// Builds a default `TauAxis`
    fn default() -> (axis: TauAxis)
        ensures
            axis == TauAxis::Octave,
    {
        TauAxis::Octave
    }
}

/// A `tau` axis is valid when every value is positive and each value is
/// larger than the one before it.
pub open spec fn is_tau_axis(taus: Seq<i64>) -> bool {
    &&& forall|i: int| 0 <= i < taus.len() ==> 0 < #[trigger] taus[i]
    &&& forall|i: int| 0 < i < taus.len() ==> taus[i - 1] < #[trigger] taus[i]
}

/// What is wrong with the value at index `i`, if anything: a negative value
/// is reported before a null one, and a null one before a step that does not
/// increase.
pub open spec fn fault_at(taus: Seq<i64>, i: int) -> Option<Error> {
    if taus[i] < 0 {
        Some(Error::NegativeTauValue)
    } else if taus[i] == 0 {
        Some(Error::NullTauValue)
    } else if i > 0 && taus[i] <= taus[i - 1] {
        Some(Error::InvalidTauShape)
    } else {
        None
    }
}

/// The fault of the first faulty value of the axis, scanning from index 0.
pub open spec fn first_fault(taus: Seq<i64>) -> Option<Error>
    decreases taus.len(),
{
    if taus.len() == 0 {
        None
    } else {
        match first_fault(taus.drop_last()) {
            Some(e) => Some(e),
            None => fault_at(taus, taus.len() - 1),
        }
    }
}

/// An axis has no fault exactly when it is valid.
pub proof fn lemma_no_fault_iff_valid(taus: Seq<i64>)
    ensures
        first_fault(taus) is None <==> is_tau_axis(taus),
    decreases taus.len(),
{
    if taus.len() > 0 {
        let head = taus.drop_last();
        lemma_no_fault_iff_valid(head);
        let last = taus.len() - 1;
        if is_tau_axis(taus) {
            assert forall|i: int| 0 <= i < head.len() implies 0 < #[trigger] head[i] by {
                assert(head[i] == taus[i]);
            }
            assert forall|i: int| 0 < i < head.len() implies head[i - 1] < #[trigger] head[i] by {
                assert(head[i] == taus[i]);
                assert(head[i - 1] == taus[i - 1]);
            }
            assert(0 < taus[last]);
            if last > 0 {
                assert(taus[last - 1] < taus[last]);
            }
        }
        if first_fault(taus) is None {
            assert(is_tau_axis(head));
            assert(fault_at(taus, last) is None);
            assert forall|i: int| 0 <= i < taus.len() implies 0 < #[trigger] taus[i] by {
                if i < last {
                    assert(head[i] == taus[i]);
                }
            }
            assert forall|i: int| 0 < i < taus.len() implies taus[i - 1] < #[trigger] taus[i] by {
                if i < last {
                    assert(head[i] == taus[i]);
                    assert(head[i - 1] == taus[i - 1]);
                }
            }
        }
    }
}

/// Returns Ok() if given tau axis passes standard sanity checks.
///
/// The axis is scanned once from the start; the error is that of the first
/// faulty value.
pub fn tau_sanity_checks(taus: &Vec<i64>) -> (r: Result<(), Error>)
    ensures
        r is Ok <==> is_tau_axis(taus@),
        r == match first_fault(taus@) {
            Some(e) => Err::<(), Error>(e),
            None => Ok(()),
        },
{
    let mut i: usize = 0;
    while i < taus.len()
        invariant
            i <= taus.len(),
            first_fault(taus@.take(i as int)) is None,
        decreases taus.len() - i,
    {
        proof {
            assert(taus@.take(i + 1).drop_last() =~= taus@.take(i as int));
            lemma_fault_extends(taus@, i + 1);
        }
        if taus[i] < 0 {
            return Err(Error::NegativeTauValue);
        }
        if taus[i] == 0 {
            return Err(Error::NullTauValue);
        }
        if i > 0 {
            if taus[i] <= taus[i - 1] {
                return Err(Error::InvalidTauShape);
            }
        }
        i += 1;
    }
    proof {
        assert(taus@.take(i as int) =~= taus@);
        lemma_no_fault_iff_valid(taus@);
    }
    Ok(())
}

/// A fault found in a prefix of the axis is the first fault of the whole axis.
proof fn lemma_fault_extends(taus: Seq<i64>, n: int)
    requires
        0 <= n <= taus.len(),
    ensures
        first_fault(taus.take(n)) is Some ==> first_fault(taus) == first_fault(taus.take(n)),
        n > 0 ==> first_fault(taus.take(n)) == (match first_fault(taus.take(n - 1)) {
            Some(e) => Some(e),
            None => fault_at(taus, n - 1),
        }),
    decreases taus.len() - n,
{
    if n > 0 {
        assert(taus.take(n).drop_last() =~= taus.take(n - 1));
    }
    if n < taus.len() {
        lemma_fault_extends(taus, n + 1);
    } else {
        assert(taus.take(n) =~= taus);
    }
}

/// The geometric axis that starts at `tau_0` and grows by the factor `base`
/// for as long as it stays at or below `tau_m`. A start that is not positive
/// gives the empty axis.
pub open spec fn is_log_axis(axis: Seq<i64>, tau_0: int, tau_m: int, base: int) -> bool {
    if tau_0 <= 0 {
        axis.len() == 0
    } else {
        &&& forall|i: int|
            0 <= i < axis.len() ==> #[trigger] axis[i] == tau_0 * pow(base, i as nat)
        &&& forall|i: int| 0 <= i < axis.len() ==> #[trigger] axis[i] <= tau_m
        &&& tau_0 * pow(base, axis.len()) > tau_m
    }
}

/// The linear axis: every whole number from `tau_0` up to, but not
/// including, `tau_m`.
pub open spec fn is_linear_axis(axis: Seq<i64>, tau_0: int, tau_m: int) -> bool {
    &&& axis.len() == (if tau_m > tau_0 {
        tau_m - tau_0
    } else {
        0
    })
    &&& forall|i: int| 0 <= i < axis.len() ==> #[trigger] axis[i] == tau_0 + i
}

/// What `tau_generator` returns for each kind of axis.
pub open spec fn is_generated_axis(axis: Seq<i64>, kind: TauAxis, tau_0: int, tau_m: int) -> bool {
    match kind {
        TauAxis::Octave => is_log_axis(axis, tau_0, tau_m, 2),
        TauAxis::Decade => is_log_axis(axis, tau_0, tau_m, 10),
        TauAxis::All => is_linear_axis(axis, tau_0, tau_m),
    }
}

proof fn lemma_pow_step(base: int, e: nat)
    ensures
        pow(base, e + 1) == base * pow(base, e),
        pow(base, 0) == 1,
{
    reveal(pow);
}

/// Generate log(base) `TauAxis`
/// ranging from [tau_0: tau_m]
fn log_n_tau_generator(tau_0: i64, tau_m: i64, base: i64) -> (ret: Vec<i64>)
    requires
        base >= 2,
    ensures
        is_log_axis(ret@, tau_0 as int, tau_m as int, base as int),
{
    let mut ret: Vec<i64> = Vec::new();
    if tau_0 <= 0 {
        return ret;
    }
    let mut tau: i64 = tau_0;
    let mut done: bool = false;
    proof {
        lemma_pow_step(base as int, 0);
    }
    while !done && tau <= tau_m
        invariant
            base >= 2,
            tau_0 > 0,
            tau > 0,
            !done ==> tau == tau_0 * pow(base as int, ret@.len()),
            done ==> tau_0 * pow(base as int, ret@.len()) > tau_m,
            forall|i: int|
                0 <= i < ret@.len() ==> #[trigger] ret@[i] == tau_0 * pow(base as int, i as nat),
            forall|i: int| 0 <= i < ret@.len() ==> #[trigger] ret@[i] <= tau_m,
        decreases
            (if done || tau > tau_m {
                0
            } else {
                tau_m - tau + 1
            }),
    {
        ret.push(tau);
        proof {
            lemma_pow_step(base as int, (ret@.len() - 1) as nat);
            assert(tau_0 * pow(base as int, ret@.len()) == tau * base) by (nonlinear_arith)
                requires
                    tau == tau_0 * pow(base as int, (ret@.len() - 1) as nat),
                    pow(base as int, ret@.len()) == base * pow(
                        base as int,
                        (ret@.len() - 1) as nat,
                    ),
            ;
            assert(tau * base >= 2 * tau) by (nonlinear_arith)
                requires
                    tau > 0,
                    base >= 2,
            ;
        }
        match tau.checked_mul(base) {
            Some(next) => {
                tau = next;
            },
            None => {
                done = true;
            },
        }
    }
    ret
}

/// Generates `Log2` axis ranging from [tau_0: tau_m]
fn log2_tau_generator(tau_0: i64, tau_m: i64) -> (ret: Vec<i64>)
    ensures
        is_log_axis(ret@, tau_0 as int, tau_m as int, 2),
{
    log_n_tau_generator(tau_0, tau_m, 2)
}

/// Generates `Log10` axis ranging from [tau_0: tau_m]
fn log10_tau_generator(tau_0: i64, tau_m: i64) -> (ret: Vec<i64>)
    ensures
        is_log_axis(ret@, tau_0 as int, tau_m as int, 10),
{
    log_n_tau_generator(tau_0, tau_m, 10)
}

/// Generates the linear axis of every whole `tau` in [tau_0: tau_m[
fn linear_tau_generator(tau_0: i64, tau_m: i64) -> (ret: Vec<i64>)
    ensures
        is_linear_axis(ret@, tau_0 as int, tau_m as int),
{
    let mut ret: Vec<i64> = Vec::new();
    let mut tau: i64 = tau_0;
    while tau < tau_m
        invariant
            tau_0 <= tau,
            tau_0 < tau_m ==> tau <= tau_m,
            tau_m <= tau_0 ==> tau == tau_0,
            ret@.len() == tau - tau_0,
            forall|i: int| 0 <= i < ret@.len() ==> #[trigger] ret@[i] == tau_0 + i,
        decreases tau_m - tau,
    {
        ret.push(tau);
        tau += 1;
    }
    ret
}

/// Creates `tau` axis [`tau_0`: `tau_m`].
///
/// `tau_0` and `tau_m` are counted in sampling intervals. The octave and
/// decade axes include `tau_m` when they reach it; the linear axis stops one
/// short of it. A log axis that starts at or below zero is empty.
pub fn tau_generator(axis: TauAxis, tau_0: i64, tau_m: i64) -> (ret: Vec<i64>)
    ensures
        is_generated_axis(ret@, axis, tau_0 as int, tau_m as int),
{
    match axis {
        TauAxis::Octave => log2_tau_generator(tau_0, tau_m),
        TauAxis::Decade => log10_tau_generator(tau_0, tau_m),
        TauAxis::All => linear_tau_generator(tau_0, tau_m),
    }
}

} // verus!
