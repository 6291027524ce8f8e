//! Minimum, maximum and rounded mean of a list of whole numbers.

use vstd::prelude::*;

verus! {

/// The sum of `values`.
pub open spec fn total(values: Seq<i64>) -> int
    decreases values.len(),
{
    if values.len() == 0 {
        0
    } else {
        total(values.drop_last()) + values.last()
    }
}

/// `m` occurs in `values` and none of them is smaller.
pub open spec fn is_minimum(values: Seq<i64>, m: i64) -> bool {
    values.contains(m) && forall|i: int| 0 <= i < values.len() ==> m <= values[i]
}

/// `m` occurs in `values` and none of them is larger.
pub open spec fn is_maximum(values: Seq<i64>, m: i64) -> bool {
    values.contains(m) && forall|i: int| 0 <= i < values.len() ==> values[i] <= m
}

/// `sum / count` rounded to the nearest whole number, a half away from zero.
pub open spec fn rounded_mean(sum: int, count: int) -> int
    recommends
        count > 0,
{
    let magnitude = if sum < 0 {
        -sum
    } else {
        sum
    };
    let whole = magnitude / count;
    let rounded = if 2 * (magnitude % count) >= count {
        whole + 1
    } else {
        whole
    };
    if sum < 0 {
        -rounded
    } else {
        rounded
    }
}

/// Two minima of the same list are equal, and so are two maxima.
pub proof fn lemma_extremes_unique(values: Seq<i64>, a: i64, b: i64)
    ensures
        is_minimum(values, a) && is_minimum(values, b) ==> a == b,
        is_maximum(values, a) && is_maximum(values, b) ==> a == b,
{
}

/// What a list of numbers is reduced to.
#[derive(Clone, Copy, Debug, PartialEq, Eq, Structural)]
pub struct Summary {
    pub average: i64,
    pub min: i64,
    pub max: i64,
}

impl Summary {
    /// The summary is that of `values`.
    pub open spec fn describes(self, values: Seq<i64>) -> bool {
        &&& values.len() > 0
        &&& is_minimum(values, self.min)
        &&& is_maximum(values, self.max)
        &&& self.average == rounded_mean(total(values), values.len() as int)
    }
}

/// The summary of a list that is not empty.
pub open spec fn summary_of(values: Seq<i64>) -> Summary {
    Summary {
        average: rounded_mean(total(values), values.len() as int) as i64,
        min: choose|m: i64| is_minimum(values, m),
        max: choose|m: i64| is_maximum(values, m),
    }
}

/// The rounded mean is the whole number nearest to the exact mean, and of two
/// that are equally near the one farther from zero.
pub proof fn lemma_rounded_mean_is_nearest(sum: int, count: int)
    requires
        count > 0,
    ensures
        sum >= 0 ==> 2 * rounded_mean(sum, count) * count - count <= 2 * sum < 2 * rounded_mean(
            sum,
            count,
        ) * count + count,
        sum < 0 ==> 2 * rounded_mean(sum, count) * count - count < 2 * sum <= 2 * rounded_mean(
            sum,
            count,
        ) * count + count,
{
    let magnitude = if sum < 0 {
        -sum
    } else {
        sum
    };
    let whole = magnitude / count;
    let rest = magnitude % count;
    assert(magnitude == whole * count + rest && 0 <= rest < count) by (nonlinear_arith)
        requires
            whole == magnitude / count,
            rest == magnitude % count,
            count > 0,
            magnitude >= 0,
    ;
    assert(2 * (whole + 1) * count == 2 * (whole * count) + 2 * count) by (nonlinear_arith);
    assert(2 * whole * count == 2 * (whole * count)) by (nonlinear_arith);
    assert(2 * (-whole) * count == -2 * (whole * count)) by (nonlinear_arith);
    assert(2 * (-(whole + 1)) * count == -2 * (whole * count) - 2 * count) by (nonlinear_arith);
}

/// The sum of values that all lie between two bounds lies between the bounds
/// taken as many times.
pub proof fn lemma_total_bounds(values: Seq<i64>, low: int, high: int)
    requires
        forall|i: int| 0 <= i < values.len() ==> low <= #[trigger] values[i] <= high,
    ensures
        low * values.len() <= total(values) <= high * values.len(),
    decreases values.len(),
{
    if values.len() > 0 {
        lemma_total_bounds(values.drop_last(), low, high);
        let n = values.len() as int;
        assert(low * n == low * (n - 1) + low) by (nonlinear_arith);
        assert(high * n == high * (n - 1) + high) by (nonlinear_arith);
    }
}

/// The rounded mean of values between two bounds lies between the bounds.
pub proof fn lemma_rounded_mean_bounds(sum: int, count: int, low: int, high: int)
    requires
        count > 0,
        low <= 0 <= high,
        low * count <= sum <= high * count,
    ensures
        low <= rounded_mean(sum, count) <= high,
{
    let magnitude = if sum < 0 {
        -sum
    } else {
        sum
    };
    let bound = if sum < 0 {
        -low
    } else {
        high
    };
    let whole = magnitude / count;
    let rest = magnitude % count;
    assert(magnitude == whole * count + rest && 0 <= rest < count && whole >= 0)
        by (nonlinear_arith)
        requires
            whole == magnitude / count,
            rest == magnitude % count,
            count > 0,
            magnitude >= 0,
    ;
    assert(magnitude <= bound * count) by (nonlinear_arith)
        requires
            low * count <= sum <= high * count,
            magnitude == if sum < 0 {
                -sum
            } else {
                sum
            },
            bound == if sum < 0 {
                -low
            } else {
                high
            },
    ;
    assert(whole <= bound && (rest > 0 ==> whole < bound)) by (nonlinear_arith)
        requires
            magnitude == whole * count + rest,
            0 <= rest < count,
            magnitude <= bound * count,
            count > 0,
    ;
}

/// Minimum, maximum and rounded mean of `values`; `None` for an empty list.
pub fn summarize(values: &Vec<i64>) -> (r: Option<Summary>)
    ensures
        match r {
            Some(summary) => summary.describes(values@) && summary == summary_of(values@),
            None => values@.len() == 0,
        },
{
    if values.len() == 0 {
        return None;
    }
    let mut min: i64 = values[0];
    let mut max: i64 = values[0];
    let mut sum: i128 = values[0] as i128;
    let mut i: usize = 1;
    assert(total(values@.take(1)) == values@[0]) by {
        assert(total(values@.take(1).drop_last()) == 0);
    }
    while i < values.len()
        invariant
            1 <= i <= values.len(),
            sum == total(values@.take(i as int)),
            i64::MIN * i <= sum <= i64::MAX * i,
            is_minimum(values@.take(i as int), min),
            is_maximum(values@.take(i as int), max),
        decreases values.len() - i,
    {
        let v: i64 = values[i];
        proof {
            let before = values@.take(i as int);
            let after = values@.take(i + 1);
            assert(after.drop_last() =~= before);
            assert(after.last() == v);
        }
        if v < min {
            min = v;
        }
        if v > max {
            max = v;
        }
        sum = sum + v as i128;
        i += 1;
    }
    assert(values@.take(i as int) =~= values@);
    let count: u128 = values.len() as u128;
    let negative: bool = sum < 0;
    let magnitude: u128 = if negative {
        (-sum) as u128
    } else {
        sum as u128
    };
    let whole: u128 = magnitude / count;
    let rest: u128 = magnitude % count;
    proof {
        lemma_total_bounds(values@, i64::MIN as int, i64::MAX as int);
        lemma_rounded_mean_bounds(
            sum as int,
            count as int,
            i64::MIN as int,
            i64::MAX as int,
        );
    }
    let rounded: u128 = if 2 * rest >= count {
        whole + 1
    } else {
        whole
    };
    let average: i64 = if negative {
        (-(rounded as i128)) as i64
    } else {
        rounded as i64
    };
    proof {
        lemma_extremes_unique(values@, min, summary_of(values@).min);
        lemma_extremes_unique(values@, max, summary_of(values@).max);
    }
    Some(Summary { average, min, max })
}

} // verus!
