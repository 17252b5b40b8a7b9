use arraybench::render::{e4_to_string, u64_to_string};
use arraybench::sizes::{default_sizes, effective_sizes, parse_sizes};

#[test]
fn suffix_k() {
    assert_eq!(parse_sizes("1k"), vec![1000]);
    assert_eq!(parse_sizes("1K"), vec![1000]);
}

#[test]
fn fractional_m() {
    assert_eq!(parse_sizes("2.5m"), vec![2500000]);
    assert_eq!(parse_sizes("2.5M"), vec![2500000]);
}

#[test]
fn suffix_g() {
    assert_eq!(parse_sizes("1g"), vec![1000000000]);
    assert_eq!(parse_sizes("0.5G"), vec![500000000]);
}

#[test]
fn plain_numbers() {
    assert_eq!(parse_sizes("10000,100000,1000000"), vec![10000, 100000, 1000000]);
    assert_eq!(parse_sizes("0"), vec![0]);
}

#[test]
fn fraction_is_floored() {
    assert_eq!(parse_sizes("1.2345k"), vec![1234]);
    assert_eq!(parse_sizes("3.7"), vec![3]);
    assert_eq!(parse_sizes(".5k"), vec![500]);
    assert_eq!(parse_sizes("1."), vec![1]);
}

#[test]
fn malformed_tokens_are_skipped() {
    assert_eq!(parse_sizes(""), Vec::<usize>::new());
    assert_eq!(parse_sizes(","), Vec::<usize>::new());
    assert_eq!(parse_sizes("."), Vec::<usize>::new());
    assert_eq!(parse_sizes("1.2.3"), Vec::<usize>::new());
    assert_eq!(parse_sizes("abc"), Vec::<usize>::new());
    assert_eq!(parse_sizes("k"), Vec::<usize>::new());
    assert_eq!(parse_sizes("abc,1k,,2"), vec![1000, 2]);
    assert_eq!(parse_sizes("1k,10k,100k"), vec![1000, 10000, 100000]);
}

#[test]
fn all_invalid_falls_back_to_default() {
    assert_eq!(default_sizes(), vec![10000, 100000, 1000000]);
    assert_eq!(effective_sizes(""), vec![10000, 100000, 1000000]);
    assert_eq!(effective_sizes("xyz,foo"), vec![10000, 100000, 1000000]);
    assert_eq!(effective_sizes("1k"), vec![1000]);
}

#[test]
fn huge_values_clamp() {
    assert_eq!(parse_sizes("999999999999999999999999999"), vec![usize::MAX]);
}

#[test]
fn decimal_rendering() {
    assert_eq!(u64_to_string(0), "0");
    assert_eq!(u64_to_string(42), "42");
    assert_eq!(u64_to_string(1000000), "1000000");
    assert_eq!(u64_to_string(u64::MAX), "18446744073709551615");
}

#[test]
fn four_decimal_rendering() {
    assert_eq!(e4_to_string(33333), "3.3333");
    assert_eq!(e4_to_string(10000), "1.0000");
    assert_eq!(e4_to_string(7), "0.0007");
    assert_eq!(e4_to_string(0), "0.0000");
    assert_eq!(e4_to_string(123456789), "12345.6789");
}
