//! tools / utilities to manipulate
//! datasets & vectors

use vstd::prelude::*;

verus! {

/// The sum of the first `count` values of the series.
pub open spec fn prefix_sum(data: Seq<i64>, count: nat) -> int
    decreases count,
{
    if count == 0 {
        0
    } else {
        prefix_sum(data, (count - 1) as nat) + data[count - 1]
    }
}

/// The factor that a normalization stands for: 1 when there is none.
pub open spec fn factor_of(normalization: Option<i64>) -> int {
    match normalization {
        Some(factor) => factor as int,
        None => 1,
    }
}

/// The value at index `i` of the cumulative sum scaled by `factor`.
pub open spec fn cumsum_at(data: Seq<i64>, factor: int, i: int) -> int {
    factor * prefix_sum(data, (i + 1) as nat)
}

/// Every value of the scaled cumulative sum is an `i64`.
pub open spec fn cumsum_fits(data: Seq<i64>, factor: int) -> bool {
    forall|i: int|
        0 <= i < data.len() ==> i64::MIN <= #[trigger] cumsum_at(data, factor, i) <= i64::MAX
}

/// `out` is the cumulative sum of `data`, scaled by `factor`.
pub open spec fn is_cumsum(out: Seq<i64>, data: Seq<i64>, factor: int) -> bool {
    &&& out.len() == data.len()
    &&& forall|i: int| 0 <= i < out.len() ==> #[trigger] out[i] == cumsum_at(data, factor, i)
}

/// The value at index `i` of the first difference scaled by `factor`.
pub open spec fn diff_at(data: Seq<i64>, factor: int, i: int) -> int {
    factor * (data[i + 1] - data[i])
}

/// Every value of the scaled first difference is an `i64`.
pub open spec fn diff_fits(data: Seq<i64>, factor: int) -> bool {
    forall|i: int|
        0 <= i < data.len() - 1 ==> i64::MIN <= #[trigger] diff_at(data, factor, i) <= i64::MAX
}

/// `out` is the first difference of `data`, scaled by `factor`: one value
/// fewer than `data` has, and none for an empty series.
pub open spec fn is_diff(out: Seq<i64>, data: Seq<i64>, factor: int) -> bool {
    &&& out.len() == (if data.len() == 0 {
        0
    } else {
        data.len() - 1
    })
    &&& forall|i: int| 0 <= i < out.len() ==> #[trigger] out[i] == diff_at(data, factor, i)
}

/// numpy::cumsum direct equivalent: value `i` of the result is the sum of the
/// values `0..=i` of `data`, times the normalization where one is given.
///
/// Returns `None` exactly when one of these values is not an `i64`.
pub fn cumsum(data: Vec<i64>, normalization: Option<i64>) -> (r: Option<Vec<i64>>)
    ensures
        r is Some <==> cumsum_fits(data@, factor_of(normalization)),
        r matches Some(out) ==> is_cumsum(out@, data@, factor_of(normalization)),
{
    let factor: i128 = match normalization {
        Some(factor) => factor as i128,
        None => 1,
    };
    let mut ret: Vec<i64> = Vec::with_capacity(data.len());
    let mut total: i128 = 0;
    let mut i: usize = 0;
    while i < data.len()
        invariant
            i <= data@.len(),
            factor == factor_of(normalization),
            total == prefix_sum(data@, i as nat),
            -0x8000_0000_0000_0000 * i <= total <= 0x8000_0000_0000_0000 * i,
            ret@.len() == i,
            forall|j: int| 0 <= j < i ==> #[trigger] ret@[j] == cumsum_at(data@, factor as int, j),
            forall|j: int|
                0 <= j < i ==> i64::MIN <= #[trigger] cumsum_at(data@, factor as int, j)
                    <= i64::MAX,
        decreases data@.len() - i,
    {
        total = total + data[i] as i128;
        assert(total == prefix_sum(data@, (i + 1) as nat));
        assert(cumsum_at(data@, factor as int, i as int) == factor * total);
        assert(factor * total == total * factor) by (nonlinear_arith);
        let scaled: i128 = match total.checked_mul(factor) {
            Some(scaled) => scaled,
            None => {
                assert(!(i64::MIN <= cumsum_at(data@, factor as int, i as int) <= i64::MAX));
                return None;
            },
        };
        if scaled < i64::MIN as i128 || scaled > i64::MAX as i128 {
            assert(!(i64::MIN <= cumsum_at(data@, factor as int, i as int) <= i64::MAX));
            return None;
        }
        ret.push(scaled as i64);
        i += 1;
    }
    Some(ret)
}

/// numpy::diff direct equivalent: value `i` of the result is value `i + 1` of
/// `data` minus value `i`, times the normalization where one is given.
///
/// Returns `None` exactly when one of these values is not an `i64`.
pub fn diff(data: Vec<i64>, normalization: Option<i64>) -> (r: Option<Vec<i64>>)
    ensures
        r is Some <==> diff_fits(data@, factor_of(normalization)),
        r matches Some(out) ==> is_diff(out@, data@, factor_of(normalization)),
{
    let factor: i128 = match normalization {
        Some(factor) => factor as i128,
        None => 1,
    };
    let mut ret: Vec<i64> = Vec::new();
    let mut i: usize = 1;
    while i < data.len()
        invariant
            1 <= i,
            data@.len() > 0 ==> i <= data@.len(),
            data@.len() == 0 ==> i == 1,
            factor == factor_of(normalization),
            ret@.len() == i - 1,
            forall|j: int| 0 <= j < i - 1 ==> #[trigger] ret@[j] == diff_at(data@, factor as int, j),
            forall|j: int|
                0 <= j < i - 1 ==> i64::MIN <= #[trigger] diff_at(data@, factor as int, j)
                    <= i64::MAX,
        decreases data@.len() - i,
    {
        let step: i128 = data[i] as i128 - data[i - 1] as i128;
        assert(diff_at(data@, factor as int, i - 1) == factor * step);
        assert(factor * step == step * factor && -0x8000_0000_0000_0000_0000_0000_0000_0000 < step
            * factor < 0x8000_0000_0000_0000_0000_0000_0000_0000) by (nonlinear_arith)
            requires
                -0x1_0000_0000_0000_0000 < step < 0x1_0000_0000_0000_0000,
                -0x8000_0000_0000_0000 <= factor < 0x8000_0000_0000_0000,
        ;
        let scaled: i128 = step * factor;
        if scaled < i64::MIN as i128 || scaled > i64::MAX as i128 {
            assert(!(i64::MIN <= diff_at(data@, factor as int, i - 1) <= i64::MAX));
            return None;
        }
        ret.push(scaled as i64);
        i += 1;
    }
    Some(ret)
}

/// Integrates fractionnal data (n.a).
///
/// data: raw fractionnal data (n.a);
/// sample_period: the sampling interval, in the unit of the result.
/// returns: integrated data, the cumulative sum times `sample_period`
pub fn fractionnal_integral(data: Vec<i64>, sample_period: i64) -> (r: Option<Vec<i64>>)
    ensures
        r is Some <==> cumsum_fits(data@, sample_period as int),
        r matches Some(out) ==> is_cumsum(out@, data@, sample_period as int),
{
    cumsum(data, Some(sample_period))
}

/// Macro to convert fractionnal frequency data (n.a) to phase time
pub fn fractional_freq_to_phase_time(frequency: Vec<i64>, sample_period: i64) -> (r: Option<
    Vec<i64>,
>)
    ensures
        r is Some <==> cumsum_fits(frequency@, sample_period as int),
        r matches Some(out) ==> is_cumsum(out@, frequency@, sample_period as int),
{
    fractionnal_integral(frequency, sample_period)
}

/// Computes derivative,
/// converts data to fractionnal data
///
/// data: integrated data;
/// sample_rate: the number of samples per unit of time.
/// returns: fractionnal data, the first difference times `sample_rate`
pub fn derivative(data: Vec<i64>, sample_rate: i64) -> (r: Option<Vec<i64>>)
    ensures
        r is Some <==> diff_fits(data@, sample_rate as int),
        r matches Some(out) ==> is_diff(out@, data@, sample_rate as int),
{
    diff(data, Some(sample_rate))
}

/// Taking the first difference of a cumulative sum gives the series back,
/// without its first value.
pub proof fn lemma_diff_undoes_cumsum(data: Seq<i64>, sums: Seq<i64>, steps: Seq<i64>)
    requires
        is_cumsum(sums, data, 1),
        is_diff(steps, sums, 1),
    ensures
        data.len() > 0 ==> steps == data.skip(1),
        data.len() == 0 ==> steps.len() == 0,
{
    if data.len() > 0 {
        assert forall|i: int| 0 <= i < steps.len() implies steps[i] == data.skip(1)[i] by {
            assert(steps[i] == diff_at(sums, 1, i));
            assert(sums[i + 1] == cumsum_at(data, 1, i + 1));
            assert(sums[i] == cumsum_at(data, 1, i));
            assert(prefix_sum(data, (i + 2) as nat) == prefix_sum(data, (i + 1) as nat) + data[i
                + 1]);
        }
        assert(steps =~= data.skip(1));
    }
}

} // verus!
