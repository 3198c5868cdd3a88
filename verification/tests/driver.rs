use gcd_cli::driver::parse_operand;
use gcd_cli::driver::run_driver;
use gcd_cli::driver::DriverError;

fn args_of(texts: &[&str]) -> Vec<String> {
    texts.iter().map(|t| t.to_string()).collect()
}

#[test]
fn run_reports_gcd_of_arguments() {
    let r = run_driver(&args_of(&["4", "8", "24"]));
    match r {
        Ok(report) => {
            assert_eq!(report.operands, vec![4, 8, 24]);
            assert_eq!(report.result, 4);
        }
        Err(_) => panic!("expected a result"),
    }
}

#[test]
fn run_with_no_arguments_is_a_usage_error() {
    let r = run_driver(&Vec::new());
    assert_eq!(r.err(), Some(DriverError::EmptyInput));
}

#[test]
fn run_names_the_malformed_argument() {
    let r = run_driver(&args_of(&["4", "x"]));
    assert_eq!(r.err(), Some(DriverError::MalformedOperand { index: 1 }));
}

#[test]
fn run_rejects_a_zero_operand() {
    let r = run_driver(&args_of(&["0", "5"]));
    assert_eq!(r.err(), Some(DriverError::ZeroOperand { index: 0 }));
}

#[test]
fn run_stops_at_the_first_bad_argument() {
    let r = run_driver(&args_of(&["6", "y", "0"]));
    assert_eq!(r.err(), Some(DriverError::MalformedOperand { index: 1 }));
    let r = run_driver(&args_of(&["6", "0", "y"]));
    assert_eq!(r.err(), Some(DriverError::ZeroOperand { index: 1 }));
}

#[test]
fn run_accepts_a_single_argument() {
    let r = run_driver(&args_of(&["17"]));
    match r {
        Ok(report) => {
            assert_eq!(report.operands, vec![17]);
            assert_eq!(report.result, 17);
        }
        Err(_) => panic!("expected a result"),
    }
}

#[test]
fn parse_reads_plain_decimals() {
    assert_eq!(parse_operand("0"), Some(0));
    assert_eq!(parse_operand("7"), Some(7));
    assert_eq!(parse_operand("007"), Some(7));
    assert_eq!(parse_operand("18446744073709551615"), Some(u64::MAX));
}

#[test]
fn parse_accepts_one_leading_plus() {
    assert_eq!(parse_operand("+7"), Some(7));
    assert_eq!(parse_operand("++7"), None);
    assert_eq!(parse_operand("+"), None);
}

#[test]
fn parse_rejects_what_is_not_a_decimal() {
    assert_eq!(parse_operand(""), None);
    assert_eq!(parse_operand("x"), None);
    assert_eq!(parse_operand("4x"), None);
    assert_eq!(parse_operand("-4"), None);
    assert_eq!(parse_operand("1 2"), None);
    assert_eq!(parse_operand("4.5"), None);
}

#[test]
fn parse_rejects_values_out_of_range() {
    assert_eq!(parse_operand("18446744073709551616"), None);
    assert_eq!(parse_operand("99999999999999999999999"), None);
}
