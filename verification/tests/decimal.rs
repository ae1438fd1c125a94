use throughput::decimal::{decimal_string, push_decimal};

#[test]
fn zero_is_a_single_digit() {
    assert_eq!(decimal_string(0), "0");
}

#[test]
fn single_digits() {
    let expected = ["0", "1", "2", "3", "4", "5", "6", "7", "8", "9"];
    for (n, text) in expected.iter().enumerate() {
        assert_eq!(decimal_string(n as u64), *text);
    }
}

#[test]
fn powers_of_ten_and_their_neighbours() {
    assert_eq!(decimal_string(9), "9");
    assert_eq!(decimal_string(10), "10");
    assert_eq!(decimal_string(11), "11");
    assert_eq!(decimal_string(99), "99");
    assert_eq!(decimal_string(100), "100");
    assert_eq!(decimal_string(101), "101");
    assert_eq!(decimal_string(1_000_000), "1000000");
}

#[test]
fn inner_zeros_are_kept() {
    assert_eq!(decimal_string(507), "507");
    assert_eq!(decimal_string(1_002_003), "1002003");
}

#[test]
fn largest_value() {
    assert_eq!(decimal_string(u64::MAX), "18446744073709551615");
}

#[test]
fn agrees_with_the_standard_formatting() {
    let mut n: u64 = 0;
    while n < 5_000 {
        assert_eq!(decimal_string(n), format!("{}", n));
        n += 1;
    }
    let mut m: u64 = 1;
    while m < u64::MAX / 7 {
        assert_eq!(decimal_string(m), format!("{}", m));
        assert_eq!(decimal_string(m - 1), format!("{}", m - 1));
        m *= 7;
    }
}

#[test]
fn push_decimal_appends_to_what_is_there() {
    let mut out = String::from("n=");
    push_decimal(&mut out, 42);
    assert_eq!(out, "n=42");
    push_decimal(&mut out, 0);
    assert_eq!(out, "n=420");
}
