use stats_traits::{DataType, FrequencyStats, StatsError};

#[test]
fn test_non_zero_count() {
    let vec: Vec<(usize, i32)> = vec![(1, 1), (2, 2)];
    assert_eq!(vec.non_zero_count(), Ok(3));
}

#[test]
fn test_sum() {
    let vec: Vec<(usize, i32)> = vec![(1, 1), (2, 2)];
    assert_eq!(vec.sum(), Ok(5));
}

#[test]
fn test_mean() {
    let vec: Vec<(usize, i32)> = vec![(1, 1), (2, 2)];
    assert_eq!(vec.mean(), Ok(1));
}

#[test]
fn test_variance() {
    let vec: Vec<(usize, i32)> = vec![(1, 1), (2, 2)];
    assert_eq!(vec.variance(), Ok(0));
}

#[test]
fn weighted_pairs_count_mean_and_mode() {
    let vec: Vec<(usize, i32)> = vec![(1, 1), (2, 2)];
    assert_eq!(vec.count(), 3);
    assert_eq!(vec.non_zero_count_into_item(), Ok(3));
    assert_eq!(vec.mode(), Ok(2));
}

#[test]
fn weighted_variance_of_integers() {
    // values 1, 3, 3, 3, 5: mean 3, squared distances 4 + 0 + 0 + 0 + 4
    let vec: Vec<(usize, i64)> = vec![(1, 1), (3, 3), (1, 5)];
    assert_eq!(vec.sum(), Ok(15));
    assert_eq!(vec.mean(), Ok(3));
    assert_eq!(vec.variance(), Ok(1));
}

#[test]
fn duplicate_values_accumulate() {
    let vec: Vec<(usize, i32)> = vec![(2, 4), (3, 4)];
    assert_eq!(vec.count(), 5);
    assert_eq!(vec.sum(), Ok(20));
    assert_eq!(vec.mean(), Ok(4));
}

#[test]
fn count_that_item_cannot_hold_fails_sum() {
    let vec: Vec<(usize, i8)> = vec![(1, 1), (200, 0)];
    let expected = Err(StatsError::CouldNotConvert {
        from: DataType::Usize,
        to: DataType::Item,
    });
    assert_eq!(vec.sum(), expected);
    assert_eq!(vec.mean(), expected);
    assert_eq!(vec.variance(), expected);
}

#[test]
fn total_weight_that_item_cannot_hold_fails_mean() {
    let vec: Vec<(usize, i8)> = vec![(100, 0), (100, 0)];
    assert_eq!(vec.sum(), Ok(0));
    assert_eq!(vec.non_zero_count(), Ok(200));
    assert_eq!(
        vec.mean(),
        Err(StatsError::CouldNotConvert {
            from: DataType::Usize,
            to: DataType::Item
        })
    );
}

#[test]
fn empty_pairs_fail() {
    let vec: Vec<(usize, i32)> = Vec::new();
    assert_eq!(vec.count(), 0);
    assert_eq!(vec.sum(), Ok(0));
    assert_eq!(vec.non_zero_count(), Err(StatsError::EmptyCollection));
    assert_eq!(vec.non_zero_count_into_item(), Err(StatsError::EmptyCollection));
    assert_eq!(vec.mean(), Err(StatsError::EmptyCollection));
    assert_eq!(vec.variance(), Err(StatsError::EmptyCollection));
    assert_eq!(FrequencyStats::min(&vec), Err(StatsError::EmptyCollection));
    assert_eq!(FrequencyStats::max(&vec), Err(StatsError::EmptyCollection));
    assert_eq!(FrequencyStats::range(&vec), Err(StatsError::EmptyCollection));
    assert_eq!(vec.mode(), Err(StatsError::EmptyCollection));
}

#[test]
fn zero_total_weight_fails_mean_and_mode() {
    let vec: Vec<(usize, i32)> = vec![(0, 3), (0, 8)];
    assert_eq!(vec.mean(), Err(StatsError::EmptyCollection));
    assert_eq!(vec.mode(), Err(StatsError::EmptyCollection));
    assert_eq!(FrequencyStats::min(&vec), Ok(3));
}

#[test]
fn mode_tie_goes_to_the_last_pair() {
    let vec: Vec<(usize, i32)> = vec![(2, 5), (3, 7), (3, 9), (1, 4)];
    assert_eq!(vec.mode(), Ok(9));
    let vec: Vec<(usize, i32)> = vec![(4, 5), (3, 7), (0, 9)];
    assert_eq!(vec.mode(), Ok(5));
}

#[test]
fn extremes_ignore_counts() {
    let vec: Vec<(usize, i32)> = vec![(5, 3), (0, -2), (1, 10)];
    assert_eq!(FrequencyStats::min(&vec), Ok(-2));
    assert_eq!(FrequencyStats::max(&vec), Ok(10));
    assert_eq!(FrequencyStats::range(&vec), Ok(12));
}

#[test]
fn weighted_mean_truncates() {
    let vec: Vec<(usize, i32)> = vec![(1, -1), (2, -2)];
    assert_eq!(vec.sum(), Ok(-5));
    assert_eq!(vec.mean(), Ok(-1));
}

#[test]
fn repeated_frequency_calls_agree() {
    let vec: Vec<(usize, u32)> = vec![(2, 6), (1, 3), (2, 1)];
    let copy = vec.clone();
    assert_eq!(vec.sum(), vec.sum());
    assert_eq!(vec.mean(), vec.mean());
    assert_eq!(vec.mode(), vec.mode());
    assert_eq!(vec, copy);
}

#[test]
fn count_in_range_detects_overflow() {
    let vec: Vec<(usize, i32)> = vec![(usize::MAX, 1), (1, 1)];
    assert!(!vec.count_in_range());
    let vec: Vec<(usize, i32)> = vec![(usize::MAX, 1), (0, 1)];
    assert!(vec.count_in_range());
    assert_eq!(vec.count(), usize::MAX);
}

#[test]
fn weighted_sum_in_range_stops_at_an_unconvertible_count() {
    let vec: Vec<(usize, i8)> = vec![(200, 1), (1, 127), (1, 127)];
    assert!(vec.sum_in_range());
    let vec: Vec<(usize, i8)> = vec![(100, 2)];
    assert!(!vec.sum_in_range());
    let vec: Vec<(usize, i8)> = vec![(1, 100), (1, 100)];
    assert!(!vec.sum_in_range());
    let vec: Vec<(usize, i8)> = vec![(2, 50), (1, 20)];
    assert!(vec.sum_in_range());
    assert_eq!(vec.sum(), Ok(120));
}

#[test]
fn weighted_variance_in_range_detects_overflow() {
    let vec: Vec<(usize, i8)> = vec![(1, 0), (1, 100)];
    assert!(!vec.variance_in_range());
    let vec: Vec<(usize, i8)> = vec![(3, 1), (1, 5)];
    assert!(vec.variance_in_range());
    assert_eq!(vec.variance(), Ok(3));
    let vec: Vec<(usize, u8)> = vec![(1, 1), (1, 3)];
    assert!(!vec.variance_in_range());
}

#[test]
fn frequency_slices() {
    let pairs: [(usize, i32); 3] = [(1, 1), (2, 2), (4, 3)];
    let slice: &[(usize, i32)] = &pairs[..2];
    assert_eq!(slice.count(), 3);
    assert_eq!(slice.mode(), Ok(2));
    assert_eq!(pairs[..].mode(), Ok(3));
    assert_eq!(pairs[..].sum(), Ok(17));
}
