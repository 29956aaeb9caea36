use stats_traits::{DataType, Stats, StatsError};

#[test]
fn test_sum_vec() {
    let v = vec![1, 2, 3];
    assert_eq!(v.sum(), 6);
}

#[test]
fn test_count_vec() {
    let v = vec![1, 2, 3];
    assert_eq!(v.count(), 3);
}

#[test]
fn test_mean_vec() {
    let v = vec![1, 2, 3];
    assert_eq!(v.mean(), Ok(2));

    let v = vec![1, 2, 3, 4];
    assert_eq!(v.mean(), Ok(2));
}

#[test]
fn test_non_zero_count_fail() {
    assert_eq!(
        Vec::<i32>::new().non_zero_count(),
        Err(StatsError::EmptyCollection)
    )
}

#[test]
fn test_non_zero_count_as_item_fail() {
    assert_eq!(
        Vec::<i8>::from_iter(std::iter::repeat(1).take(128)).non_zero_count_into_item(),
        Err(StatsError::CouldNotConvert {
            from: DataType::Usize,
            to: DataType::Item
        })
    )
}

#[test]
fn test_min_vec() {
    let v = vec![1, 2, 3];
    assert_eq!(<Vec<i32> as Stats>::min(&v), Ok(1));
}

#[test]
fn test_max_vec() {
    let v = vec![1, 2, 3];
    assert_eq!(<Vec<i32> as Stats>::max(&v), Ok(3));
}

#[test]
fn test_range_vec() {
    let v = vec![1, 2, 3];
    assert_eq!(<Vec<i32> as Stats>::range(&v), Ok(2));
}

#[test]
fn count_is_number_of_elements() {
    let v: Vec<i64> = vec![7, -3, 0, 0, 12];
    assert_eq!(v.count(), 5);
    assert_eq!(v.non_zero_count(), Ok(5));
    assert_eq!(v.non_zero_count_into_item(), Ok(5));
}

#[test]
fn mean_truncates_toward_zero_for_negative_sums() {
    let v: Vec<i32> = vec![-1, -2, -3, -4];
    assert_eq!(v.sum(), -10);
    assert_eq!(v.mean(), Ok(-2));
}

#[test]
fn mean_of_mixed_signs() {
    let v: Vec<i16> = vec![-7, 2];
    assert_eq!(v.mean(), Ok(-2));
}

#[test]
fn empty_i64_collection_fails_everywhere() {
    let v = Vec::<i64>::new();
    assert_eq!(v.sum(), 0);
    assert_eq!(v.count(), 0);
    assert_eq!(v.non_zero_count(), Err(StatsError::EmptyCollection));
    assert_eq!(v.non_zero_count_into_item(), Err(StatsError::EmptyCollection));
    assert_eq!(v.mean(), Err(StatsError::EmptyCollection));
    assert_eq!(v.variance(), Err(StatsError::EmptyCollection));
    assert_eq!(<Vec<i64> as Stats>::min(&v), Err(StatsError::EmptyCollection));
    assert_eq!(<Vec<i64> as Stats>::max(&v), Err(StatsError::EmptyCollection));
    assert_eq!(<Vec<i64> as Stats>::range(&v), Err(StatsError::EmptyCollection));
}

#[test]
fn count_too_large_for_item_fails_mean_and_variance() {
    let v: Vec<i8> = vec![0; 128];
    let expected = Err(StatsError::CouldNotConvert {
        from: DataType::Usize,
        to: DataType::Item,
    });
    assert_eq!(v.mean(), expected);
    assert_eq!(v.variance(), expected);
}

#[test]
fn largest_count_that_fits_the_item() {
    let v: Vec<i8> = vec![0; 127];
    assert_eq!(v.non_zero_count_into_item(), Ok(127));
    assert_eq!(v.mean(), Ok(0));

    let v: Vec<u8> = vec![1; 256];
    assert_eq!(
        v.non_zero_count_into_item(),
        Err(StatsError::CouldNotConvert {
            from: DataType::Usize,
            to: DataType::Item
        })
    );
    let v: Vec<u8> = vec![0; 255];
    assert_eq!(v.non_zero_count_into_item(), Ok(255));
}

#[test]
fn variance_of_integers() {
    let v: Vec<i32> = vec![1, 2, 3, 4, 5];
    assert_eq!(v.variance(), Ok(2));

    let v: Vec<i64> = vec![2, 4, 4, 4, 5, 5, 7, 9];
    assert_eq!(v.mean(), Ok(5));
    assert_eq!(v.variance(), Ok(4));
}

#[test]
fn variance_rounds_toward_zero() {
    let v: Vec<i32> = vec![1, 2, 3];
    assert_eq!(v.variance(), Ok(0));
}

#[test]
fn unsigned_statistics() {
    let v: Vec<u8> = vec![10, 20];
    assert_eq!(v.sum(), 30);
    assert_eq!(v.mean(), Ok(15));
    assert_eq!(v.variance(), Ok(25));
    assert_eq!(<Vec<u8> as Stats>::range(&v), Ok(10));
}

#[test]
fn wide_types() {
    let v: Vec<i128> = vec![i128::MAX / 2, i128::MAX / 2];
    assert_eq!(v.mean(), Ok(i128::MAX / 2));
    let v: Vec<u128> = vec![u128::MAX, 1];
    assert_eq!(<Vec<u128> as Stats>::range(&v), Ok(u128::MAX - 1));
    let v: Vec<u16> = vec![3, 9, 6];
    assert_eq!(v.mean(), Ok(6));
    let v: Vec<u32> = vec![4, 8];
    assert_eq!(v.mean(), Ok(6));
    let v: Vec<u64> = vec![5];
    assert_eq!(v.variance(), Ok(0));
}

#[test]
fn extremes_with_negatives() {
    let v: Vec<i32> = vec![4, -9, 0, 12, -9];
    assert_eq!(<Vec<i32> as Stats>::min(&v), Ok(-9));
    assert_eq!(<Vec<i32> as Stats>::max(&v), Ok(12));
    assert_eq!(<Vec<i32> as Stats>::range(&v), Ok(21));
}

#[test]
fn single_element() {
    let v: Vec<i32> = vec![-5];
    assert_eq!(v.mean(), Ok(-5));
    assert_eq!(v.variance(), Ok(0));
    assert_eq!(<Vec<i32> as Stats>::min(&v), Ok(-5));
    assert_eq!(<Vec<i32> as Stats>::max(&v), Ok(-5));
    assert_eq!(<Vec<i32> as Stats>::range(&v), Ok(0));
}

#[test]
fn repeated_calls_agree_and_keep_input() {
    let v: Vec<i32> = vec![3, 1, 4, 1, 5, 9, 2, 6];
    let copy = v.clone();
    assert_eq!(v.sum(), v.sum());
    assert_eq!(v.mean(), v.mean());
    assert_eq!(v.variance(), v.variance());
    assert_eq!(<Vec<i32> as Stats>::min(&v), <Vec<i32> as Stats>::min(&v));
    assert_eq!(<Vec<i32> as Stats>::range(&v), <Vec<i32> as Stats>::range(&v));
    assert_eq!(v, copy);
}

#[test]
fn sum_in_range_detects_overflow_of_a_prefix() {
    let v: Vec<i8> = vec![100, 27];
    assert!(v.sum_in_range());
    let v: Vec<i8> = vec![127, 1, -1];
    assert!(!v.sum_in_range());
    assert!(Vec::<i8>::new().sum_in_range());
}

#[test]
fn variance_in_range_detects_overflow() {
    let v: Vec<u8> = vec![1, 2, 3];
    assert!(!v.variance_in_range());
    let v: Vec<u8> = vec![2, 3];
    assert!(v.variance_in_range());
    assert_eq!(v.variance(), Ok(0));
    let v: Vec<i8> = vec![0, 127];
    assert!(!v.variance_in_range());
    let v: Vec<i8> = vec![0, 10];
    assert!(v.variance_in_range());
    assert_eq!(v.variance(), Ok(25));
    assert!(Vec::<i8>::new().variance_in_range());
}

#[test]
fn slices_and_arrays() {
    let v: Vec<i32> = vec![1, 2, 3, 4, 5, 6];
    let slice: &[i32] = &v[1..4];
    assert_eq!(slice.count(), 3);
    assert_eq!(slice.sum(), 9);
    assert_eq!(slice.mean(), Ok(3));
    assert_eq!(<[i32] as Stats>::range(slice), Ok(2));
    let array: [u16; 2] = [4, 8];
    assert_eq!(array[..].mean(), Ok(6));
}
