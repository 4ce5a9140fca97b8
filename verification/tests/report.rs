use spending_counter::extract::ParseError;
use spending_counter::report::{format_amount, report_line, total_for, RunError};

#[test]
fn amounts_are_written_with_two_decimals() {
    assert_eq!(format_amount(4650), "46.50");
    assert_eq!(format_amount(4600), "46.00");
    assert_eq!(format_amount(0), "0.00");
    assert_eq!(format_amount(7), "0.07");
    assert_eq!(format_amount(70), "0.70");
    assert_eq!(format_amount(100), "1.00");
    assert_eq!(format_amount(123456789), "1234567.89");
}

#[test]
fn largest_total_is_written_in_full() {
    assert_eq!(
        format_amount(u128::MAX),
        "3402823669209384634633746074317682114.55"
    );
}

#[test]
fn written_amounts_agree_with_float_formatting() {
    for cents in [0u128, 5, 50, 99, 100, 101, 4650, 1120, 3230, 999999] {
        assert_eq!(format_amount(cents), format!("{:.2}", cents as f64 / 100.0));
    }
}

#[test]
fn report_line_names_the_filter_and_the_total() {
    assert_eq!(
        report_line("t[ae]st", 4600),
        "The price for all matches of t[ae]st is: 46.00"
    );
    assert_eq!(report_line("", 4650), "The price for all matches of  is: 46.50");
}

#[test]
fn total_for_goes_from_text_to_total() {
    let text = "abcd -$32.30 $55\nehea 48629$3.3. -$11.20\n-$3.00 ejejee";
    assert_eq!(total_for("", text), Ok(4650));
    assert_eq!(total_for("e[hj]e", text), Ok(1420));
    assert_eq!(total_for("ABCD", text), Ok(0));
    assert_eq!(total_for("abcd", ""), Ok(0));
}

#[test]
fn total_for_reports_a_bad_filter_with_its_pattern() {
    match total_for("t[ae", "-$1.00") {
        Err(RunError::Filter { pattern, cause }) => {
            assert_eq!(pattern, "t[ae");
            assert_eq!(cause, regex::Regex::new("t[ae").unwrap_err().to_string());
            assert!(!cause.is_empty());
        }
        other => panic!("{:?}", other),
    }
}

#[test]
fn total_for_reports_the_filter_before_the_statement() {
    assert!(matches!(
        total_for("(", "-$33.20, -$31.30"),
        Err(RunError::Filter { .. })
    ));
    assert_eq!(
        total_for("x", "-$33.20, -$31.30"),
        Err(RunError::Statement(ParseError::AmbiguousLine {
            line: "-$33.20, -$31.30".to_string()
        }))
    );
    assert_eq!(
        total_for("x", "-$1_00"),
        Err(RunError::Statement(ParseError::InvalidAmount { line: "-$1_00".to_string() }))
    );
}
