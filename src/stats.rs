//! Statistics over a collection of elements.
use vstd::prelude::*;

use crate::error::{DataType, StatsError};
use crate::model::{
    count_into, largest, lift, mean_of, partial_sums_fit, smallest, spread, squared_deviations,
    sum_of, values, variance_fits, variance_of, max_of, min_of,
};
use crate::num::{fits, MinMax, NumExt};
use crate::types::Result;

verus! {

/// Statistics over a collection of numbers.
pub trait Stats {
    /// The type of the collection's elements.
    type Item: NumExt;

    /// The elements, in order.
    spec fn items(&self) -> Seq<Self::Item>;

    /// The number of elements.
    fn count(&self) -> (r: usize)
        ensures
            r == self.items().len(),
    ;

    /// The element at index `i`.
    fn item(&self, i: usize) -> (r: Self::Item)
        requires
            i < self.items().len(),
        ensures
            r == self.items()[i as int],
    ;

    /// The sum of all elements, added from left to right.
    fn sum(&self) -> (r: Self::Item)
        requires
            partial_sums_fit::<Self::Item>(values(self.items())),
        ensures
            r.value() == sum_of(values(self.items())),
    {
        let ghost s = values(self.items());
        let mut total = Self::Item::zero();
        let mut i: usize = 0;
        while i < self.count()
            invariant
                i <= self.items().len(),
                s == values(self.items()),
                partial_sums_fit::<Self::Item>(s),
                total.value() == sum_of(s.take(i as int)),
            decreases self.items().len() - i,
        {
            proof {
                assert(s.take(i + 1).drop_last() == s.take(i as int));
                assert(fits::<Self::Item>(sum_of(s.take(i + 1))));
            }
            total = total.add(self.item(i));
            i = i + 1;
        }
        assert(s.take(self.items().len() as int) == s);
        total
    }

    /// Whether adding the elements from left to right stays in the element
    /// type's range, as `sum` and `mean` require.
    fn sum_in_range(&self) -> (r: bool)
        ensures
            r == partial_sums_fit::<Self::Item>(values(self.items())),
    {
        let ghost s = values(self.items());
        let mut total = Self::Item::zero();
        let mut i: usize = 0;
        proof {
            Self::Item::lemma_value(total, total);
            assert(s.take(0) == Seq::<int>::empty());
        }
        while i < self.count()
            invariant
                i <= self.items().len(),
                s == values(self.items()),
                forall|j: int| 0 <= j <= i ==> fits::<Self::Item>(#[trigger] sum_of(s.take(j))),
                total.value() == sum_of(s.take(i as int)),
            decreases self.items().len() - i,
        {
            assert(s.take(i + 1).drop_last() == s.take(i as int));
            match total.try_add(self.item(i)) {
                Some(t) => total = t,
                None => {
                    assert(!fits::<Self::Item>(sum_of(s.take(i + 1))));
                    return false;
                },
            }
            i = i + 1;
        }
        assert(s.take(self.items().len() as int) == s);
        true
    }

    /// The number of elements, or `EmptyCollection` when there is none.
    fn non_zero_count(&self) -> (r: Result<usize>)
        ensures
            match r {
                Ok(n) => self.items().len() > 0 && n == self.items().len(),
                Err(e) => self.items().len() == 0 && e == StatsError::EmptyCollection,
            },
    {
        let count = self.count();
        if count == 0 {
            Err(StatsError::EmptyCollection)
        } else {
            Ok(count)
        }
    }

    /// The number of elements as an element: `EmptyCollection` when there
    /// is none, `CouldNotConvert { from: Usize, to: Item }` when the element
    /// type cannot hold it.
    fn non_zero_count_into_item(&self) -> (r: Result<Self::Item>)
        ensures
            lift(r) == count_into(self.items().len() as int, Self::Item::highest()),
    {
        let count = match self.non_zero_count() {
            Ok(c) => c,
            Err(e) => return Err(e),
        };
        match Self::Item::from_usize(count) {
            Some(n) => Ok(n),
            None => Err(StatsError::CouldNotConvert { from: DataType::Usize, to: DataType::Item }),
        }
    }

    /// The mean of the elements, rounded toward zero, with the errors of
    /// `non_zero_count_into_item`.
    fn mean(&self) -> (r: Result<Self::Item>)
        requires
            partial_sums_fit::<Self::Item>(values(self.items())),
        ensures
            lift(r) == mean_of(values(self.items()), Self::Item::highest()),
    {
        let total = self.sum();
        let n = match self.non_zero_count_into_item() {
            Ok(n) => n,
            Err(e) => return Err(e),
        };
        proof {
            Self::Item::lemma_value(total, n);
            crate::num::lemma_trunc_div_bounded(total.value(), n.value());
        }
        Ok(total.div(n))
    }

    /// The population variance of the elements: the sum of the squared
    /// distances from the mean, divided by the count, with the errors of
    /// `mean`.
    fn variance(&self) -> (r: Result<Self::Item>)
        requires
            variance_fits::<Self::Item>(values(self.items())),
        ensures
            lift(r) == variance_of(values(self.items()), Self::Item::highest()),
    {
        let ghost s = values(self.items());
        let mean = match self.mean() {
            Ok(m) => m,
            Err(e) => return Err(e),
        };
        let ghost d = squared_deviations(s, mean.value());
        let mut total = Self::Item::zero();
        let mut i: usize = 0;
        while i < self.count()
            invariant
                i <= self.items().len(),
                s == values(self.items()),
                d == squared_deviations(s, mean.value()),
                variance_fits::<Self::Item>(s),
                mean_of(s, Self::Item::highest()) == Ok::<int, StatsError>(mean.value()),
                total.value() == sum_of(d.take(i as int)),
            decreases self.items().len() - i,
        {
            proof {
                assert(d.take(i + 1).drop_last() == d.take(i as int));
                assert(fits::<Self::Item>(sum_of(d.take(i + 1))));
                assert(fits::<Self::Item>(s[i as int] - mean.value()));
                assert(fits::<Self::Item>(
                    (s[i as int] - mean.value()) * (s[i as int] - mean.value()),
                ));
            }
            let diff = self.item(i).sub(mean);
            total = total.add(diff.mul(diff));
            i = i + 1;
        }
        assert(d.take(self.items().len() as int) == d);
        let n = match self.non_zero_count_into_item() {
            Ok(n) => n,
            Err(e) => return Err(e),
        };
        proof {
            Self::Item::lemma_value(total, n);
            crate::num::lemma_trunc_div_bounded(total.value(), n.value());
        }
        Ok(total.div(n))
    }

    /// Whether the arithmetic of `variance` stays in the element type's
    /// range, as `variance` requires.
    fn variance_in_range(&self) -> (r: bool)
        ensures
            r == variance_fits::<Self::Item>(values(self.items())),
    {
        let ghost s = values(self.items());
        if !self.sum_in_range() {
            return false;
        }
        let mean = match self.mean() {
            Ok(m) => m,
            Err(_) => return true,
        };
        let ghost m = mean.value();
        let ghost d = squared_deviations(s, m);
        let mut total = Self::Item::zero();
        let mut i: usize = 0;
        proof {
            Self::Item::lemma_value(total, total);
            assert(d.take(0) == Seq::<int>::empty());
        }
        while i < self.count()
            invariant
                i <= self.items().len(),
                s == values(self.items()),
                d == squared_deviations(s, m),
                m == mean.value(),
                partial_sums_fit::<Self::Item>(s),
                mean_of(s, Self::Item::highest()) == Ok::<int, StatsError>(m),
                forall|j: int| 0 <= j < i ==> fits::<Self::Item>(#[trigger] s[j] - m),
                forall|j: int| 0 <= j < i ==> fits::<Self::Item>((#[trigger] s[j] - m) * (s[j] - m)),
                forall|j: int| 0 <= j <= i ==> fits::<Self::Item>(#[trigger] sum_of(d.take(j))),
                total.value() == sum_of(d.take(i as int)),
            decreases self.items().len() - i,
        {
            assert(d.take(i + 1).drop_last() == d.take(i as int));
            let diff = match self.item(i).try_sub(mean) {
                Some(x) => x,
                None => {
                    assert(!fits::<Self::Item>(s[i as int] - m));
                    return false;
                },
            };
            let square = match diff.try_mul(diff) {
                Some(x) => x,
                None => {
                    assert(!fits::<Self::Item>((s[i as int] - m) * (s[i as int] - m)));
                    return false;
                },
            };
            match total.try_add(square) {
                Some(t) => total = t,
                None => {
                    assert(!fits::<Self::Item>(sum_of(d.take(i + 1))));
                    return false;
                },
            }
            i = i + 1;
        }
        assert(d.take(self.items().len() as int) == d);
        true
    }

    /// The smallest element, or `EmptyCollection`.
    fn min(&self) -> (r: Result<Self::Item>) where Self::Item: MinMax
        ensures
            lift(r) == smallest(values(self.items())),
    {
        let ghost s = values(self.items());
        if self.count() == 0 {
            return Err(StatsError::EmptyCollection);
        }
        let mut least = self.item(0);
        let mut i: usize = 1;
        while i < self.count()
            invariant
                1 <= i <= self.items().len(),
                s == values(self.items()),
                least.value() == min_of(s.take(i as int)),
            decreases self.items().len() - i,
        {
            assert(s.take(i + 1).drop_last() == s.take(i as int));
            least = least.min(self.item(i));
            i = i + 1;
        }
        assert(s.take(self.items().len() as int) == s);
        Ok(least)
    }

    /// The largest element, or `EmptyCollection`.
    fn max(&self) -> (r: Result<Self::Item>) where Self::Item: MinMax
        ensures
            lift(r) == largest(values(self.items())),
    {
        let ghost s = values(self.items());
        if self.count() == 0 {
            return Err(StatsError::EmptyCollection);
        }
        let mut greatest = self.item(0);
        let mut i: usize = 1;
        while i < self.count()
            invariant
                1 <= i <= self.items().len(),
                s == values(self.items()),
                greatest.value() == max_of(s.take(i as int)),
            decreases self.items().len() - i,
        {
            assert(s.take(i + 1).drop_last() == s.take(i as int));
            greatest = greatest.max(self.item(i));
            i = i + 1;
        }
        assert(s.take(self.items().len() as int) == s);
        Ok(greatest)
    }

    /// The largest element less the smallest, or `EmptyCollection`.
    fn range(&self) -> (r: Result<Self::Item>) where Self::Item: MinMax
        requires
            self.items().len() > 0 ==> fits::<Self::Item>(
                max_of(values(self.items())) - min_of(values(self.items())),
            ),
        ensures
            lift(r) == spread(values(self.items())),
    {
        let greatest = match self.max() {
            Ok(x) => x,
            Err(e) => return Err(e),
        };
        let least = match self.min() {
            Ok(x) => x,
            Err(e) => return Err(e),
        };
        Ok(greatest.sub(least))
    }
}

impl<T: NumExt> Stats for Vec<T> {
    type Item = T;

    open spec fn items(&self) -> Seq<T> {
        self@
    }

    fn count(&self) -> (r: usize) {
        self.len()
    }

    fn item(&self, i: usize) -> (r: T) {
        self[i]
    }
}

impl<T: NumExt> Stats for [T] {
    type Item = T;

    open spec fn items(&self) -> Seq<T> {
        self@
    }

    fn count(&self) -> (r: usize) {
        self.len()
    }

    fn item(&self, i: usize) -> (r: T) {
        self[i]
    }
}

} // verus!
