//! Mathematical meaning of the statistics, over sequences of integers.
use vstd::prelude::*;

use crate::error::{DataType, StatsError};
use crate::num::{fits, trunc_div, NumExt};

verus! {

/// The values of a sequence of elements.
pub open spec fn values<T: NumExt>(s: Seq<T>) -> Seq<int> {
    s.map_values(|x: T| x.value())
}

/// The value of a result, with its error kept as it is.
pub open spec fn lift<T: NumExt>(r: Result<T, StatsError>) -> Result<int, StatsError> {
    match r {
        Ok(x) => Ok(x.value()),
        Err(e) => Err(e),
    }
}

/// The sum of a sequence.
pub open spec fn sum_of(s: Seq<int>) -> int
    decreases s.len(),
{
    if s.len() == 0 {
        0
    } else {
        sum_of(s.drop_last()) + s.last()
    }
}

/// Every sum of a prefix of `s` is a value of `T`: adding the elements
/// from left to right never leaves `T`'s range.
pub open spec fn partial_sums_fit<T: NumExt>(s: Seq<int>) -> bool {
    forall|i: int| 0 <= i <= s.len() ==> fits::<T>(#[trigger] sum_of(s.take(i)))
}

/// The error for a count that the element type cannot hold.
pub open spec fn count_not_item() -> StatsError {
    StatsError::CouldNotConvert { from: DataType::Usize, to: DataType::Item }
}

/// A count of `n` elements, as an element of a type whose largest value is
/// `highest`: there must be at least one element, and the count must fit.
pub open spec fn count_into(n: int, highest: int) -> Result<int, StatsError> {
    if n == 0 {
        Err(StatsError::EmptyCollection)
    } else if n > highest {
        Err(count_not_item())
    } else {
        Ok(n)
    }
}

/// The mean of `s`, rounded toward zero, in a type whose largest value is
/// `highest`.
pub open spec fn mean_of(s: Seq<int>, highest: int) -> Result<int, StatsError> {
    match count_into(s.len() as int, highest) {
        Ok(n) => Ok(trunc_div(sum_of(s), n)),
        Err(e) => Err(e),
    }
}

/// The squared distances of the elements of `s` from `m`.
pub open spec fn squared_deviations(s: Seq<int>, m: int) -> Seq<int> {
    s.map_values(|x: int| (x - m) * (x - m))
}

/// Each distance from `m`, each square of it, and each partial sum of the
/// squares is a value of `T`.
pub open spec fn deviations_fit<T: NumExt>(s: Seq<int>, m: int) -> bool {
    &&& forall|i: int| 0 <= i < s.len() ==> fits::<T>(#[trigger] s[i] - m)
    &&& forall|i: int| 0 <= i < s.len() ==> fits::<T>((#[trigger] s[i] - m) * (s[i] - m))
    &&& partial_sums_fit::<T>(squared_deviations(s, m))
}

/// The arithmetic of the population variance of `s` stays in `T`'s range.
pub open spec fn variance_fits<T: NumExt>(s: Seq<int>) -> bool {
    &&& partial_sums_fit::<T>(s)
    &&& match mean_of(s, T::highest()) {
        Ok(m) => deviations_fit::<T>(s, m),
        Err(_) => true,
    }
}

/// The population variance of `s`: the mean of the squared distances from
/// the mean, both rounded toward zero.
pub open spec fn variance_of(s: Seq<int>, highest: int) -> Result<int, StatsError> {
    match mean_of(s, highest) {
        Ok(m) => Ok(trunc_div(sum_of(squared_deviations(s, m)), s.len() as int)),
        Err(e) => Err(e),
    }
}

/// The smallest element of a non-empty sequence.
pub open spec fn min_of(s: Seq<int>) -> int
    decreases s.len(),
{
    if s.len() <= 1 {
        s[0]
    } else {
        vstd::math::min(min_of(s.drop_last()), s.last())
    }
}

/// The largest element of a non-empty sequence.
pub open spec fn max_of(s: Seq<int>) -> int
    decreases s.len(),
{
    if s.len() <= 1 {
        s[0]
    } else {
        vstd::math::max(max_of(s.drop_last()), s.last())
    }
}

/// The smallest element, or `EmptyCollection`.
pub open spec fn smallest(s: Seq<int>) -> Result<int, StatsError> {
    if s.len() == 0 {
        Err(StatsError::EmptyCollection)
    } else {
        Ok(min_of(s))
    }
}

/// The largest element, or `EmptyCollection`.
pub open spec fn largest(s: Seq<int>) -> Result<int, StatsError> {
    if s.len() == 0 {
        Err(StatsError::EmptyCollection)
    } else {
        Ok(max_of(s))
    }
}

/// The largest element less the smallest, or `EmptyCollection`.
pub open spec fn spread(s: Seq<int>) -> Result<int, StatsError> {
    if s.len() == 0 {
        Err(StatsError::EmptyCollection)
    } else {
        Ok(max_of(s) - min_of(s))
    }
}

/// The pairs of a frequency collection as (count, value) integers.
pub open spec fn pair_values<T: NumExt>(p: Seq<(usize, T)>) -> Seq<(int, int)> {
    p.map_values(|q: (usize, T)| (q.0 as int, q.1.value()))
}

/// The values of a frequency collection, without their counts.
pub open spec fn values_only(p: Seq<(int, int)>) -> Seq<int> {
    p.map_values(|q: (int, int)| q.1)
}

/// The total weight: the sum of all counts.
pub open spec fn total_weight(p: Seq<(int, int)>) -> int
    decreases p.len(),
{
    if p.len() == 0 {
        0
    } else {
        total_weight(p.drop_last()) + p.last().0
    }
}

/// The sum of every value times its count.
pub open spec fn weighted_sum(p: Seq<(int, int)>) -> int
    decreases p.len(),
{
    if p.len() == 0 {
        0
    } else {
        weighted_sum(p.drop_last()) + p.last().1 * p.last().0
    }
}

/// Every count is at most `highest`.
pub open spec fn counts_fit(p: Seq<(int, int)>, highest: int) -> bool {
    forall|i: int| 0 <= i < p.len() ==> #[trigger] p[i].0 <= highest
}

/// Adding up value times count from left to right stays in `T`'s range, up
/// to the first count that `T` cannot hold.
pub open spec fn weighted_sums_fit<T: NumExt>(p: Seq<(int, int)>) -> bool {
    forall|i: int|
        0 <= i < p.len() && counts_fit(#[trigger] p.take(i + 1), T::highest()) ==> {
            &&& fits::<T>(p[i].1 * p[i].0)
            &&& fits::<T>(weighted_sum(p.take(i + 1)))
        }
}

/// The weighted sum, or the error for the first count that the element type,
/// whose largest value is `highest`, cannot hold.
pub open spec fn weighted_sum_of(p: Seq<(int, int)>, highest: int) -> Result<int, StatsError> {
    if counts_fit(p, highest) {
        Ok(weighted_sum(p))
    } else {
        Err(count_not_item())
    }
}

/// The weighted mean, rounded toward zero.
pub open spec fn weighted_mean_of(p: Seq<(int, int)>, highest: int) -> Result<int, StatsError> {
    match weighted_sum_of(p, highest) {
        Ok(t) => match count_into(total_weight(p), highest) {
            Ok(n) => Ok(trunc_div(t, n)),
            Err(e) => Err(e),
        },
        Err(e) => Err(e),
    }
}

/// Each value replaced by its squared distance from `m`, counts kept.
pub open spec fn weighted_squared_deviations(p: Seq<(int, int)>, m: int) -> Seq<(int, int)> {
    p.map_values(|q: (int, int)| (q.0, (q.1 - m) * (q.1 - m)))
}

/// The weighted population variance, rounded toward zero.
pub open spec fn weighted_variance_of(p: Seq<(int, int)>, highest: int) -> Result<
    int,
    StatsError,
> {
    match weighted_mean_of(p, highest) {
        Ok(m) => Ok(trunc_div(weighted_sum(weighted_squared_deviations(p, m)), total_weight(p))),
        Err(e) => Err(e),
    }
}

/// The arithmetic of the weighted variance stays in `T`'s range.
pub open spec fn weighted_variance_fits<T: NumExt>(p: Seq<(int, int)>) -> bool {
    &&& weighted_sums_fit::<T>(p)
    &&& match weighted_mean_of(p, T::highest()) {
        Ok(m) => {
            &&& forall|i: int| 0 <= i < p.len() ==> fits::<T>(#[trigger] p[i].1 - m)
            &&& forall|i: int|
                0 <= i < p.len() ==> fits::<T>((#[trigger] p[i].1 - m) * (p[i].1 - m))
            &&& weighted_sums_fit::<T>(weighted_squared_deviations(p, m))
        },
        Err(_) => true,
    }
}

/// Index `k` holds the largest count, and every later pair a smaller one:
/// among the pairs with the largest count, `k` is the last.
pub open spec fn is_last_most_frequent(p: Seq<(int, int)>, k: int) -> bool {
    &&& 0 <= k < p.len()
    &&& forall|i: int| 0 <= i < p.len() ==> #[trigger] p[i].0 <= p[k].0
    &&& forall|i: int| k < i < p.len() ==> #[trigger] p[i].0 < p[k].0
}

/// A result is fixed by its value: two results whose values agree are the
/// same result. Each statistic's contract fixes the value of its result from
/// the collection alone, so a statistic asked twice of an unchanged
/// collection gives identical results.
pub proof fn lemma_result_fixed_by_value<T: NumExt>(
    a: Result<T, StatsError>,
    b: Result<T, StatsError>,
)
    requires
        lift(a) == lift(b),
    ensures
        a == b,
{
    match (a, b) {
        (Ok(x), Ok(y)) => T::lemma_value(x, y),
        _ => {},
    }
}

/// The mean of a non-empty collection whose count the element type holds is
/// the sum divided by the count, rounded toward zero: the mean times the
/// count lies between zero and the sum, less than one count away from it.
pub proof fn lemma_mean_rounds_toward_zero(s: Seq<int>, highest: int)
    requires
        0 < s.len() <= highest,
    ensures
        mean_of(s, highest) is Ok,
        sum_of(s) >= 0 ==> 0 <= mean_of(s, highest)->Ok_0 * s.len() <= sum_of(s)
            < mean_of(s, highest)->Ok_0 * s.len() + s.len(),
        sum_of(s) < 0 ==> mean_of(s, highest)->Ok_0 * s.len() - s.len() < sum_of(s)
            <= mean_of(s, highest)->Ok_0 * s.len() <= 0,
{
    let a = sum_of(s);
    let n = s.len() as int;
    let m = if a >= 0 { a } else { -a };
    let q = m / n;
    let r = m % n;
    vstd::arithmetic::div_mod::lemma_fundamental_div_mod(m, n);
    vstd::arithmetic::div_mod::lemma_mod_bound(m, n);
    vstd::arithmetic::div_mod::lemma_div_pos_is_pos(m, n);
    assert(mean_of(s, highest) == Ok::<int, StatsError>(if a >= 0 { q } else { -q }));
    assert(q * n == n * q) by (nonlinear_arith);
    assert(-q * n == -(n * q)) by (nonlinear_arith);
}

/// On an empty collection the mean, the variance, the smallest and largest
/// elements and the range all fail with `EmptyCollection`, as does the
/// count of elements; so do the weighted mean and variance of no pairs.
pub proof fn lemma_empty_collection_fails(highest: int)
    ensures
        count_into(0, highest) == Err::<int, StatsError>(StatsError::EmptyCollection),
        mean_of(Seq::empty(), highest) == Err::<int, StatsError>(StatsError::EmptyCollection),
        variance_of(Seq::empty(), highest) == Err::<int, StatsError>(StatsError::EmptyCollection),
        smallest(Seq::empty()) == Err::<int, StatsError>(StatsError::EmptyCollection),
        largest(Seq::empty()) == Err::<int, StatsError>(StatsError::EmptyCollection),
        spread(Seq::empty()) == Err::<int, StatsError>(StatsError::EmptyCollection),
        weighted_mean_of(Seq::empty(), highest) == Err::<int, StatsError>(
            StatsError::EmptyCollection,
        ),
        weighted_variance_of(Seq::empty(), highest) == Err::<int, StatsError>(
            StatsError::EmptyCollection,
        ),
{
    assert(counts_fit(Seq::<(int, int)>::empty(), highest));
}

/// The total weight of a prefix is at most the total weight.
pub proof fn lemma_total_weight_prefix(p: Seq<(int, int)>, i: int)
    requires
        0 <= i <= p.len(),
        forall|j: int| 0 <= j < p.len() ==> #[trigger] p[j].0 >= 0,
    ensures
        0 <= total_weight(p.take(i)) <= total_weight(p),
    decreases p.len(),
{
    if p.len() > 0 {
        if i == p.len() {
            assert(p.take(i) == p);
            lemma_total_weight_prefix(p.drop_last(), p.len() - 1);
            assert(p.drop_last().take(p.len() - 1) == p.drop_last());
        } else {
            lemma_total_weight_prefix(p.drop_last(), i);
            assert(p.drop_last().take(i) == p.take(i));
        }
    }
}

} // verus!
