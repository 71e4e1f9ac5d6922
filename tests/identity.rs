use libaoc::id::decimal_string;
use libaoc::{build_path, derive_id, puzzle_id_from_path, validate_puzzle_id, IdError};

#[test]
fn from_path() {
    let cases = vec![
        ("/Users/j0rdi/aoc/2015/d01", Some((2015, 1))),
        ("/home/j0rdi/aoc/2024/25", Some((2024, 25))),
        ("/Users/j0rdi/aoc/2017/other/d8", Some((2017, 8))),
        ("/home/j0rdi/aoc/2017/other/08/sub", Some((2017, 8))),
    ];

    for (path, expected) in cases {
        assert_eq!(puzzle_id_from_path(path), expected)
    }

    assert_eq!(puzzle_id_from_path("/invalid/path"), None)
}

#[test]
fn explicit_values_come_back_unchanged() {
    for year in 2015u16..=2024 {
        for day in 1u8..=25 {
            assert_eq!(derive_id(Some(year), Some(day), "/a/2016/d03"), Ok((year, day)));
        }
    }
}

#[test]
fn explicit_values_out_of_range() {
    assert_eq!(derive_id(Some(2014), Some(1), "/a/2016/d03"), Err(IdError::InvalidRange));
    assert_eq!(derive_id(Some(2025), Some(1), "/"), Err(IdError::InvalidRange));
    assert_eq!(derive_id(Some(2020), Some(0), "/"), Err(IdError::InvalidRange));
    assert_eq!(derive_id(Some(2020), Some(26), "/"), Err(IdError::InvalidRange));
}

#[test]
fn resolve_from_path_scenarios() {
    assert_eq!(derive_id(None, None, "/a/2015/d01"), Ok((2015, 1)));
    assert_eq!(derive_id(None, None, "/a/2024/25"), Ok((2024, 25)));
    assert_eq!(derive_id(None, None, "/a/2017/other/d8"), Ok((2017, 8)));
    assert_eq!(derive_id(None, None, "/a/2017/other/08/sub"), Ok((2017, 8)));
    assert_eq!(derive_id(None, None, "/no/digits/here"), Err(IdError::UnresolvedPuzzle));
}

#[test]
fn one_explicit_value_falls_back_to_path() {
    assert_eq!(derive_id(Some(2020), None, "/a/2015/d01"), Ok((2015, 1)));
    assert_eq!(derive_id(None, Some(3), "/a/2015/d01"), Ok((2015, 1)));
    assert_eq!(derive_id(Some(2020), None, "/nothing"), Err(IdError::UnresolvedPuzzle));
}

#[test]
fn path_with_one_run_is_unresolved() {
    assert_eq!(puzzle_id_from_path("/home/aoc/d07"), None);
    assert_eq!(puzzle_id_from_path(""), None);
    assert_eq!(puzzle_id_from_path("/"), None);
}

#[test]
fn zero_year_candidate_is_skipped() {
    assert_eq!(puzzle_id_from_path("/x/2016/00/d3"), Some((2016, 3)));
}

#[test]
fn leftmost_run_of_segment_counts() {
    assert_eq!(puzzle_id_from_path("/aoc2019x7/day12part2"), Some((2019, 12)));
    assert_eq!(puzzle_id_from_path("relative/2021/5"), Some((2021, 5)));
}

#[test]
fn large_numbers_saturate_and_are_rejected() {
    assert_eq!(puzzle_id_from_path("/a/123456/300"), Some((65535, 255)));
    assert_eq!(derive_id(None, None, "/a/123456/300"), Err(IdError::InvalidRange));
    assert_eq!(derive_id(None, None, "/a/2020/26"), Err(IdError::InvalidRange));
}

#[test]
fn validate_bounds() {
    assert_eq!(validate_puzzle_id((2015, 1)), Ok((2015, 1)));
    assert_eq!(validate_puzzle_id((2024, 25)), Ok((2024, 25)));
    assert_eq!(validate_puzzle_id((2024, 0)), Err(IdError::InvalidRange));
    assert_eq!(validate_puzzle_id((2030, 5)), Err(IdError::InvalidRange));
}

#[test]
fn decimal_notation() {
    assert_eq!(decimal_string(0), "0");
    assert_eq!(decimal_string(7), "7");
    assert_eq!(decimal_string(2024), "2024");
    assert_eq!(decimal_string(u64::MAX), "18446744073709551615");
}

#[test]
fn build_path_pads_day() {
    assert_eq!(build_path(&(2024, 5), true), Some("2024/d05".to_string()));
    assert_eq!(build_path(&(2017, 12), true), Some("2017/d12".to_string()));
    assert_eq!(build_path(&(2017, 12), false), None);
}
