use sim::utils::{usize_sqrt, usize_to_string};

#[test]
fn verify_usize_sqrt() {
    assert![1 == usize_sqrt(1)];
    assert![1 == usize_sqrt(3)];
    assert![2 == usize_sqrt(4)];
    assert![2 == usize_sqrt(8)];
    assert![3 == usize_sqrt(9)];
    assert![3 == usize_sqrt(15)];
}

#[test]
fn usize_sqrt_of_zero_and_extremes() {
    assert_eq!(usize_sqrt(0), 0);
    assert_eq!(usize_sqrt(2), 1);
    assert_eq!(usize_sqrt(1_000_000), 1000);
    assert_eq!(usize_sqrt(999_999), 999);
    let r = usize_sqrt(usize::MAX);
    assert!((r as u128) * (r as u128) <= usize::MAX as u128);
    assert!((r as u128 + 1) * (r as u128 + 1) > usize::MAX as u128);
}

#[test]
fn usize_to_string_is_decimal() {
    assert_eq!(usize_to_string(0), "0");
    assert_eq!(usize_to_string(7), "7");
    assert_eq!(usize_to_string(10), "10");
    assert_eq!(usize_to_string(1234), "1234");
    assert_eq!(usize_to_string(usize::MAX), usize::MAX.to_string());
}
