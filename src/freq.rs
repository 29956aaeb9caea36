//! Statistics over a collection of (count, value) pairs.
use vstd::prelude::*;

use crate::error::{DataType, StatsError};
use crate::model::{
    count_into, counts_fit, is_last_most_frequent, largest, lemma_total_weight_prefix, lift, max_of, min_of,
    pair_values, smallest, spread, total_weight, values_only, weighted_mean_of,
    weighted_squared_deviations, weighted_sum, weighted_sum_of, weighted_sums_fit,
    weighted_variance_fits, weighted_variance_of,
};
use crate::num::{fits, MinMax, NumExt};
use crate::types::Result;

verus! {

/// Statistics over a collection of pairs `(count, value)`, each standing for
/// `count` occurrences of `value`.
pub trait FrequencyStats<T: NumExt> {
    /// The pairs, in order.
    spec fn pairs(&self) -> Seq<(usize, T)>;

    /// The number of pairs.
    fn pair_count(&self) -> (r: usize)
        ensures
            r == self.pairs().len(),
    ;

    /// The pair at index `i`.
    fn pair(&self, i: usize) -> (r: (usize, T))
        requires
            i < self.pairs().len(),
        ensures
            r == self.pairs()[i as int],
    ;

    /// The total weight: the sum of all counts.
    fn count(&self) -> (r: usize)
        requires
            total_weight(pair_values(self.pairs())) <= usize::MAX,
        ensures
            r == total_weight(pair_values(self.pairs())),
    {
        let ghost p = pair_values(self.pairs());
        let mut total: usize = 0;
        let mut i: usize = 0;
        while i < self.pair_count()
            invariant
                i <= self.pairs().len(),
                p == pair_values(self.pairs()),
                total_weight(p) <= usize::MAX,
                total == total_weight(p.take(i as int)),
            decreases self.pairs().len() - i,
        {
            proof {
                assert(p.take(i + 1).drop_last() == p.take(i as int));
                lemma_total_weight_prefix(p, i + 1);
            }
            total = total + self.pair(i).0;
            i = i + 1;
        }
        assert(p.take(self.pairs().len() as int) == p);
        total
    }

    /// Whether the total weight fits in `usize`, as `count` requires.
    fn count_in_range(&self) -> (r: bool)
        ensures
            r == (total_weight(pair_values(self.pairs())) <= usize::MAX),
    {
        let ghost p = pair_values(self.pairs());
        let mut total: usize = 0;
        let mut i: usize = 0;
        while i < self.pair_count()
            invariant
                i <= self.pairs().len(),
                p == pair_values(self.pairs()),
                total == total_weight(p.take(i as int)),
            decreases self.pairs().len() - i,
        {
            assert(p.take(i + 1).drop_last() == p.take(i as int));
            match total.checked_add(self.pair(i).0) {
                Some(t) => total = t,
                None => {
                    proof {
                        lemma_total_weight_prefix(p, i + 1);
                    }
                    return false;
                },
            }
            i = i + 1;
        }
        assert(p.take(self.pairs().len() as int) == p);
        true
    }

    /// The total weight, or `EmptyCollection` when it is zero.
    fn non_zero_count(&self) -> (r: Result<usize>)
        requires
            total_weight(pair_values(self.pairs())) <= usize::MAX,
        ensures
            match r {
                Ok(n) => n > 0 && n == total_weight(pair_values(self.pairs())),
                Err(e) => total_weight(pair_values(self.pairs())) == 0 && e
                    == StatsError::EmptyCollection,
            },
    {
        let count = self.count();
        if count == 0 {
            Err(StatsError::EmptyCollection)
        } else {
            Ok(count)
        }
    }

    /// The total weight as an element: `EmptyCollection` when it is zero,
    /// `CouldNotConvert { from: Usize, to: Item }` when `T` cannot hold it.
    fn non_zero_count_into_item(&self) -> (r: Result<T>)
        requires
            total_weight(pair_values(self.pairs())) <= usize::MAX,
        ensures
            lift(r) == count_into(total_weight(pair_values(self.pairs())), T::highest()),
    {
        let count = match self.non_zero_count() {
            Ok(c) => c,
            Err(e) => return Err(e),
        };
        match T::from_usize(count) {
            Some(n) => Ok(n),
            None => Err(StatsError::CouldNotConvert { from: DataType::Usize, to: DataType::Item }),
        }
    }

    /// The sum of every value times its count, or
    /// `CouldNotConvert { from: Usize, to: Item }` when `T` cannot hold
    /// some count.
    fn sum(&self) -> (r: Result<T>)
        requires
            weighted_sums_fit::<T>(pair_values(self.pairs())),
        ensures
            lift(r) == weighted_sum_of(pair_values(self.pairs()), T::highest()),
    {
        let ghost p = pair_values(self.pairs());
        let mut total = T::zero();
        let mut i: usize = 0;
        while i < self.pair_count()
            invariant
                i <= self.pairs().len(),
                p == pair_values(self.pairs()),
                weighted_sums_fit::<T>(p),
                counts_fit(p.take(i as int), T::highest()),
                total.value() == weighted_sum(p.take(i as int)),
            decreases self.pairs().len() - i,
        {
            let (freq, val) = self.pair(i);
            let c = match T::from_usize(freq) {
                Some(c) => c,
                None => {
                    assert(p[i as int].0 > T::highest());
                    assert(!counts_fit(p, T::highest()));
                    return Err(StatsError::CouldNotConvert { from: DataType::Usize, to: DataType::Item });
                },
            };
            proof {
                assert(p.take(i + 1).drop_last() == p.take(i as int));
                assert forall|j: int| 0 <= j < i + 1 implies #[trigger] p.take(i + 1)[j].0
                    <= T::highest() by {
                    if j < i {
                        assert(p.take(i as int)[j] == p.take(i + 1)[j]);
                    }
                }
                assert(counts_fit(p.take(i + 1), T::highest()));
            }
            total = total.add(val.mul(c));
            i = i + 1;
        }
        assert(p.take(self.pairs().len() as int) == p);
        Ok(total)
    }

    /// Whether adding up value times count from left to right stays in
    /// `T`'s range, as `sum` requires.
    fn sum_in_range(&self) -> (r: bool)
        ensures
            r == weighted_sums_fit::<T>(pair_values(self.pairs())),
    {
        let ghost p = pair_values(self.pairs());
        let mut total = T::zero();
        let mut i: usize = 0;
        proof {
            assert(p.take(0) == Seq::<(int, int)>::empty());
        }
        while i < self.pair_count()
            invariant
                i <= self.pairs().len(),
                p == pair_values(self.pairs()),
                counts_fit(p.take(i as int), T::highest()),
                forall|j: int|
                    0 <= j < i ==> {
                        &&& fits::<T>(#[trigger] p[j].1 * p[j].0)
                        &&& fits::<T>(weighted_sum(p.take(j + 1)))
                    },
                total.value() == weighted_sum(p.take(i as int)),
            decreases self.pairs().len() - i,
        {
            assert(p.take(i + 1).drop_last() == p.take(i as int));
            let (freq, val) = self.pair(i);
            let c = match T::from_usize(freq) {
                Some(c) => c,
                None => {
                    assert(p[i as int].0 > T::highest());
                    assert forall|j: int|
                        0 <= j < p.len() && counts_fit(#[trigger] p.take(j + 1), T::highest())
                        implies {
                            &&& fits::<T>(p[j].1 * p[j].0)
                            &&& fits::<T>(weighted_sum(p.take(j + 1)))
                        } by {
                        if j >= i {
                            assert(p.take(j + 1)[i as int] == p[i as int]);
                            assert(p.take(j + 1)[i as int].0 > T::highest());
                        }
                    }
                    return true;
                },
            };
            proof {
                assert forall|j: int| 0 <= j < i + 1 implies #[trigger] p.take(i + 1)[j].0
                    <= T::highest() by {
                    if j < i {
                        assert(p.take(i as int)[j] == p.take(i + 1)[j]);
                    }
                }
            }
            let term = match val.try_mul(c) {
                Some(x) => x,
                None => {
                    assert(!fits::<T>(p[i as int].1 * p[i as int].0));
                    return false;
                },
            };
            match total.try_add(term) {
                Some(t) => total = t,
                None => {
                    assert(!fits::<T>(weighted_sum(p.take(i + 1))));
                    return false;
                },
            }
            i = i + 1;
        }
        assert(p.take(self.pairs().len() as int) == p);
        true
    }

    /// The weighted mean, rounded toward zero, with the errors of `sum` and
    /// then those of `non_zero_count_into_item`.
    fn mean(&self) -> (r: Result<T>)
        requires
            weighted_sums_fit::<T>(pair_values(self.pairs())),
            total_weight(pair_values(self.pairs())) <= usize::MAX,
        ensures
            lift(r) == weighted_mean_of(pair_values(self.pairs()), T::highest()),
    {
        let total = match self.sum() {
            Ok(t) => t,
            Err(e) => return Err(e),
        };
        let n = match self.non_zero_count_into_item() {
            Ok(n) => n,
            Err(e) => return Err(e),
        };
        proof {
            lemma_total_weight_prefix(pair_values(self.pairs()), 0);
            T::lemma_value(total, n);
            crate::num::lemma_trunc_div_bounded(total.value(), n.value());
        }
        Ok(total.div(n))
    }

    /// The weighted population variance: the sum of each squared distance
    /// from the mean times its count, divided by the total weight, with the
    /// errors of `mean`.
    fn variance(&self) -> (r: Result<T>)
        requires
            weighted_variance_fits::<T>(pair_values(self.pairs())),
            total_weight(pair_values(self.pairs())) <= usize::MAX,
        ensures
            lift(r) == weighted_variance_of(pair_values(self.pairs()), T::highest()),
    {
        let ghost p = pair_values(self.pairs());
        let mean = match self.mean() {
            Ok(m) => m,
            Err(e) => return Err(e),
        };
        let ghost d = weighted_squared_deviations(p, mean.value());
        let mut total = T::zero();
        let mut i: usize = 0;
        while i < self.pair_count()
            invariant
                i <= self.pairs().len(),
                p == pair_values(self.pairs()),
                d == weighted_squared_deviations(p, mean.value()),
                weighted_variance_fits::<T>(p),
                weighted_mean_of(p, T::highest()) == Ok::<int, StatsError>(mean.value()),
                total.value() == weighted_sum(d.take(i as int)),
            decreases self.pairs().len() - i,
        {
            let (freq, val) = self.pair(i);
            let c = match T::from_usize(freq) {
                Some(c) => c,
                None => {
                    assert(p[i as int].0 > T::highest());
                    return Err(StatsError::CouldNotConvert { from: DataType::Usize, to: DataType::Item });
                },
            };
            proof {
                assert(d.take(i + 1).drop_last() == d.take(i as int));
                assert forall|j: int| 0 <= j < i + 1 implies #[trigger] d.take(i + 1)[j].0
                    <= T::highest() by {
                    assert(d.take(i + 1)[j].0 == p[j].0);
                }
                assert(counts_fit(d.take(i + 1), T::highest()));
                assert(fits::<T>(p[i as int].1 - mean.value()));
                assert(fits::<T>((p[i as int].1 - mean.value()) * (p[i as int].1 - mean.value())));
            }
            let diff = val.sub(mean);
            total = total.add(diff.mul(diff).mul(c));
            i = i + 1;
        }
        assert(d.take(self.pairs().len() as int) == d);
        let n = match self.non_zero_count_into_item() {
            Ok(n) => n,
            Err(e) => return Err(e),
        };
        proof {
            lemma_total_weight_prefix(pair_values(self.pairs()), 0);
            T::lemma_value(total, n);
            crate::num::lemma_trunc_div_bounded(total.value(), n.value());
        }
        Ok(total.div(n))
    }

    /// Whether the total weight fits in `usize` and the arithmetic of
    /// `variance` stays in `T`'s range, as `variance` requires.
    fn variance_in_range(&self) -> (r: bool)
        ensures
            r == (total_weight(pair_values(self.pairs())) <= usize::MAX
                && weighted_variance_fits::<T>(pair_values(self.pairs()))),
    {
        let ghost p = pair_values(self.pairs());
        if !self.count_in_range() || !self.sum_in_range() {
            return false;
        }
        let mean = match self.mean() {
            Ok(m) => m,
            Err(_) => return true,
        };
        let ghost m = mean.value();
        let ghost d = weighted_squared_deviations(p, m);
        let mut total = T::zero();
        let mut i: usize = 0;
        proof {
            assert(d.take(0) == Seq::<(int, int)>::empty());
        }
        while i < self.pair_count()
            invariant
                i <= self.pairs().len(),
                p == pair_values(self.pairs()),
                d == weighted_squared_deviations(p, m),
                m == mean.value(),
                weighted_sums_fit::<T>(p),
                weighted_mean_of(p, T::highest()) == Ok::<int, StatsError>(m),
                forall|j: int| 0 <= j < i ==> fits::<T>(#[trigger] p[j].1 - m),
                forall|j: int| 0 <= j < i ==> fits::<T>((#[trigger] p[j].1 - m) * (p[j].1 - m)),
                forall|j: int|
                    0 <= j < i ==> {
                        &&& fits::<T>(#[trigger] d[j].1 * d[j].0)
                        &&& fits::<T>(weighted_sum(d.take(j + 1)))
                    },
                total.value() == weighted_sum(d.take(i as int)),
            decreases self.pairs().len() - i,
        {
            assert(d.take(i + 1).drop_last() == d.take(i as int));
            let (freq, val) = self.pair(i);
            let c = match T::from_usize(freq) {
                Some(c) => c,
                None => {
                    assert(p[i as int].0 > T::highest());
                    return false;
                },
            };
            let diff = match val.try_sub(mean) {
                Some(x) => x,
                None => {
                    assert(!fits::<T>(p[i as int].1 - m));
                    return false;
                },
            };
            let square = match diff.try_mul(diff) {
                Some(x) => x,
                None => {
                    assert(!fits::<T>((p[i as int].1 - m) * (p[i as int].1 - m)));
                    return false;
                },
            };
            let term = match square.try_mul(c) {
                Some(x) => x,
                None => {
                    proof {
                        assert(counts_fit(d.take(i + 1), T::highest()));
                        assert(!fits::<T>(d[i as int].1 * d[i as int].0));
                    }
                    return false;
                },
            };
            match total.try_add(term) {
                Some(t) => total = t,
                None => {
                    proof {
                        assert(counts_fit(d.take(i + 1), T::highest()));
                        assert(!fits::<T>(weighted_sum(d.take(i + 1))));
                    }
                    return false;
                },
            }
            i = i + 1;
        }
        proof {
            assert forall|j: int|
                0 <= j < d.len() && counts_fit(#[trigger] d.take(j + 1), T::highest()) implies {
                    &&& fits::<T>(d[j].1 * d[j].0)
                    &&& fits::<T>(weighted_sum(d.take(j + 1)))
                } by {}
        }
        true
    }

    /// The smallest value present, whatever its count, or `EmptyCollection`
    /// when there is no pair.
    fn min(&self) -> (r: Result<T>) where T: MinMax
        ensures
            lift(r) == smallest(values_only(pair_values(self.pairs()))),
    {
        let ghost s = values_only(pair_values(self.pairs()));
        if self.pair_count() == 0 {
            return Err(StatsError::EmptyCollection);
        }
        let mut least = self.pair(0).1;
        let mut i: usize = 1;
        while i < self.pair_count()
            invariant
                1 <= i <= self.pairs().len(),
                s == values_only(pair_values(self.pairs())),
                least.value() == min_of(s.take(i as int)),
            decreases self.pairs().len() - i,
        {
            assert(s.take(i + 1).drop_last() == s.take(i as int));
            least = least.min(self.pair(i).1);
            i = i + 1;
        }
        assert(s.take(self.pairs().len() as int) == s);
        Ok(least)
    }

    /// The largest value present, whatever its count, or `EmptyCollection`
    /// when there is no pair.
    fn max(&self) -> (r: Result<T>) where T: MinMax
        ensures
            lift(r) == largest(values_only(pair_values(self.pairs()))),
    {
        let ghost s = values_only(pair_values(self.pairs()));
        if self.pair_count() == 0 {
            return Err(StatsError::EmptyCollection);
        }
        let mut greatest = self.pair(0).1;
        let mut i: usize = 1;
        while i < self.pair_count()
            invariant
                1 <= i <= self.pairs().len(),
                s == values_only(pair_values(self.pairs())),
                greatest.value() == max_of(s.take(i as int)),
            decreases self.pairs().len() - i,
        {
            assert(s.take(i + 1).drop_last() == s.take(i as int));
            greatest = greatest.max(self.pair(i).1);
            i = i + 1;
        }
        assert(s.take(self.pairs().len() as int) == s);
        Ok(greatest)
    }

    /// The largest value less the smallest, or `EmptyCollection` when there
    /// is no pair.
    fn range(&self) -> (r: Result<T>) where T: MinMax
        requires
            self.pairs().len() > 0 ==> fits::<T>(
                max_of(values_only(pair_values(self.pairs()))) - min_of(
                    values_only(pair_values(self.pairs())),
                ),
            ),
        ensures
            lift(r) == spread(values_only(pair_values(self.pairs()))),
    {
        let greatest = match self.max() {
            Ok(x) => x,
            Err(e) => return Err(e),
        };
        let least = match self.min() {
            Ok(x) => x,
            Err(e) => return Err(e),
        };
        Ok(greatest.sub(least))
    }

    /// The value of the pair with the largest count; of several such pairs,
    /// the last. `EmptyCollection` when the total weight is zero.
    fn mode(&self) -> (r: Result<T>)
        requires
            total_weight(pair_values(self.pairs())) <= usize::MAX,
        ensures
            total_weight(pair_values(self.pairs())) == 0 ==> r == Err::<T, StatsError>(
                StatsError::EmptyCollection,
            ),
            total_weight(pair_values(self.pairs())) > 0 ==> exists|k: int|
                is_last_most_frequent(pair_values(self.pairs()), k) && r == Ok::<T, StatsError>(
                    #[trigger] self.pairs()[k].1,
                ),
    {
        let ghost p = pair_values(self.pairs());
        if let Err(e) = self.non_zero_count() {
            return Err(e);
        }
        let mut best_count: usize = 0;
        let mut best = T::zero();
        let ghost mut best_index: int = -1;
        let mut i: usize = 0;
        while i < self.pair_count()
            invariant
                i <= self.pairs().len(),
                p == pair_values(self.pairs()),
                i == 0 ==> best_count == 0,
                i > 0 ==> {
                    &&& is_last_most_frequent(p.take(i as int), best_index)
                    &&& best_count == self.pairs()[best_index].0
                    &&& best == self.pairs()[best_index].1
                },
            decreases self.pairs().len() - i,
        {
            let (freq, val) = self.pair(i);
            if freq >= best_count {
                best_count = freq;
                best = val;
                proof {
                    best_index = i as int;
                }
            }
            i = i + 1;
        }
        assert(p.take(self.pairs().len() as int) == p);
        assert(self.pairs()[best_index].1 == self.pairs()[best_index].1);
        Ok(best)
    }
}

impl<T: NumExt> FrequencyStats<T> for Vec<(usize, T)> {
    open spec fn pairs(&self) -> Seq<(usize, T)> {
        self@
    }

    fn pair_count(&self) -> (r: usize) {
        self.len()
    }

    fn pair(&self, i: usize) -> (r: (usize, T)) {
        self[i]
    }
}

impl<T: NumExt> FrequencyStats<T> for [(usize, T)] {
    open spec fn pairs(&self) -> Seq<(usize, T)> {
        self@
    }

    fn pair_count(&self) -> (r: usize) {
        self.len()
    }

    fn pair(&self, i: usize) -> (r: (usize, T)) {
        self[i]
    }
}

} // verus!
