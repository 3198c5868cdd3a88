use gcd_cli::fib::fib_N;
use gcd_cli::gcd::gcd;
use gcd_cli::gcd::greatest_cmn_divisor;
use gcd_cli::list::gcd_of_list;

#[test]
fn cmd_line_test_gcd() {
    assert_eq!(gcd(14, 15), 1);
    assert_eq!(gcd(2 * 3 * 5 * 11 * 17, 3 * 7 * 11 * 13 * 19), 3 * 11);
}

#[test]
fn main_test_gcd() {
    assert_eq!(greatest_cmn_divisor(14, 15), 1);
    assert_eq!(
        greatest_cmn_divisor(2 * 3 * 5 * 11 * 17, 3 * 7 * 11 * 13 * 19),
        3 * 11
    );
}

#[test]
fn fib_test() {
    assert_eq!(fib_N(4), 2);
    assert_eq!(fib_N(1), 0);
    assert_eq!(fib_N(13), 144);
}

#[test]
fn fib_edges() {
    assert_eq!(fib_N(2), 1);
    assert_eq!(fib_N(3), 1);
    assert_eq!(fib_N(48), 2971215073);
}

#[test]
fn gcd_commutes_on_values() {
    assert_eq!(gcd(12, 18), gcd(18, 12));
    assert_eq!(gcd(1071, 462), gcd(462, 1071));
    assert_eq!(gcd(1071, 462), 21);
}

#[test]
fn gcd_of_equal_operands() {
    assert_eq!(gcd(7, 7), 7);
    assert_eq!(gcd(u64::MAX, u64::MAX), u64::MAX);
}

#[test]
fn gcd_with_one() {
    assert_eq!(gcd(42, 1), 1);
    assert_eq!(gcd(1, 42), 1);
}

#[test]
fn gcd_of_list_folds_left() {
    assert_eq!(gcd_of_list(&vec![4, 8, 24]), 4);
    assert_eq!(gcd_of_list(&vec![7]), 7);
    assert_eq!(gcd_of_list(&vec![9, 6, 21]), 3);
}

#[test]
fn gcd_of_list_ignores_order() {
    assert_eq!(gcd_of_list(&vec![4, 8, 24]), gcd_of_list(&vec![24, 4, 8]));
    assert_eq!(gcd_of_list(&vec![9, 6, 21]), gcd_of_list(&vec![21, 9, 6]));
}
