use reix::range::{resolve_range, RangeError, RawRangeSpec};

fn raw(start: Option<i64>, end: Option<i64>) -> RawRangeSpec {
    RawRangeSpec { start, end }
}

fn resolved(start: Option<i64>, end: Option<i64>, file_size: u64) -> Result<(u64, u64), RangeError> {
    resolve_range(raw(start, end), file_size).map(|range| (range.start(), range.end()))
}

#[test]
fn whole_file_when_both_sides_are_absent() {
    let range = resolve_range(raw(None, None), 10).unwrap();
    assert_eq!((range.start(), range.end()), (0, 10));
    assert_eq!(range.len(), 10);
}

#[test]
fn whole_file_for_several_sizes() {
    for file_size in [0u64, 1, 16, 17, 4096, u64::MAX] {
        assert_eq!(resolved(None, None, file_size), Ok((0, file_size)));
    }
}

#[test]
fn empty_file_has_one_range() {
    assert_eq!(resolved(None, None, 0), Ok((0, 0)));
    assert_eq!(resolved(Some(0), Some(0), 0), Ok((0, 0)));
    assert_eq!(
        resolved(Some(0), Some(1), 0),
        Err(RangeError::OutOfBounds { start: 0, end: 1, file_size: 0 })
    );
}

#[test]
fn negative_start_counts_from_the_end() {
    assert_eq!(resolved(Some(-3), None, 10), Ok((7, 10)));
    assert_eq!(resolved(Some(-10), None, 10), Ok((0, 10)));
    assert_eq!(resolved(Some(-1), Some(10), 10), Ok((9, 10)));
}

#[test]
fn negative_end_counts_from_the_end() {
    assert_eq!(resolved(None, Some(-2), 10), Ok((0, 8)));
    assert_eq!(resolved(Some(3), Some(-3), 10), Ok((3, 7)));
    assert_eq!(resolved(Some(-4), Some(-1), 10), Ok((6, 9)));
}

#[test]
fn open_start_from_two() {
    assert_eq!(resolved(Some(2), None, 10), Ok((2, 10)));
}

#[test]
fn last_byte_to_end_of_file() {
    assert_eq!(resolved(Some(-1), None, 10), Ok((9, 10)));
    assert_eq!(resolved(Some(-1), None, 1), Ok((0, 1)));
}

#[test]
fn one_position_is_one_byte() {
    let range = resolve_range(raw(Some(5), Some(6)), 10).unwrap();
    assert_eq!((range.start(), range.end(), range.len()), (5, 6, 1));
}

#[test]
fn empty_range_at_either_end() {
    assert_eq!(resolved(Some(0), Some(0), 10), Ok((0, 0)));
    assert_eq!(resolved(Some(10), Some(10), 10), Ok((10, 10)));
    assert_eq!(resolved(Some(10), None, 10), Ok((10, 10)));
}

#[test]
fn start_behind_end_is_invalid() {
    assert_eq!(
        resolved(Some(6), Some(5), 10),
        Err(RangeError::InvalidRange { start: 6, end: 5 })
    );
    assert_eq!(
        resolved(Some(-1), Some(-2), 10),
        Err(RangeError::InvalidRange { start: 9, end: 8 })
    );
}

#[test]
fn invalid_comes_before_out_of_bounds() {
    assert_eq!(
        resolved(Some(30), Some(20), 10),
        Err(RangeError::InvalidRange { start: 30, end: 20 })
    );
    assert_eq!(
        resolved(Some(11), None, 10),
        Err(RangeError::InvalidRange { start: 11, end: 10 })
    );
}

#[test]
fn end_past_the_file_is_out_of_bounds() {
    assert_eq!(
        resolved(Some(5), Some(11), 10),
        Err(RangeError::OutOfBounds { start: 5, end: 11, file_size: 10 })
    );
    assert_eq!(
        resolved(None, Some(11), 10),
        Err(RangeError::OutOfBounds { start: 0, end: 11, file_size: 10 })
    );
}

#[test]
fn start_and_end_past_the_file_are_out_of_bounds() {
    assert_eq!(
        resolved(Some(11), Some(12), 10),
        Err(RangeError::OutOfBounds { start: 11, end: 12, file_size: 10 })
    );
}

#[test]
fn position_in_front_of_the_file_is_out_of_bounds() {
    assert_eq!(
        resolved(Some(-11), None, 10),
        Err(RangeError::OutOfBounds { start: -1, end: 10, file_size: 10 })
    );
    assert_eq!(
        resolved(Some(-20), Some(-15), 10),
        Err(RangeError::OutOfBounds { start: -10, end: -5, file_size: 10 })
    );
    assert_eq!(
        resolved(Some(-20), Some(5), 10),
        Err(RangeError::OutOfBounds { start: -10, end: 5, file_size: 10 })
    );
}

#[test]
fn end_in_front_of_the_file_is_invalid_after_a_start_in_it() {
    assert_eq!(
        resolved(Some(3), Some(-20), 10),
        Err(RangeError::InvalidRange { start: 3, end: -10 })
    );
}

#[test]
fn extreme_values_do_not_overflow() {
    assert_eq!(
        resolved(Some(i64::MIN), Some(i64::MAX), 0),
        Err(RangeError::OutOfBounds {
            start: i64::MIN as i128,
            end: i64::MAX as i128,
            file_size: 0
        })
    );
    assert_eq!(
        resolved(Some(i64::MIN), None, u64::MAX),
        Ok((u64::MAX - (1u64 << 63), u64::MAX))
    );
    assert_eq!(
        resolved(Some(-1), Some(-1), u64::MAX),
        Ok((u64::MAX - 1, u64::MAX - 1))
    );
    assert_eq!(
        resolved(Some(i64::MAX), None, u64::MAX),
        Ok((i64::MAX as u64, u64::MAX))
    );
}

#[test]
fn raw_ranges_compare_by_their_sides() {
    assert_eq!(raw(Some(1), None), raw(Some(1), None));
    assert_ne!(raw(Some(1), None), raw(None, Some(1)));
}
