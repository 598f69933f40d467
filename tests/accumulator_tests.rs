use calckit::accumulator::Calculator;
use calckit::checked::{checked_divide, checked_multiply, checked_subtract};
use calckit::error::CalculatorError;
use calckit::saturating;
use calckit::shapes::ShapeError;
use calckit::wrapping;

#[test]
fn exact_results_append_one_entry() {
    let mut calc = Calculator::new();
    calc.add(-7).unwrap();
    assert_eq!(calc.add(1_000_000_000_000).unwrap(), 999_999_999_993);
    assert_eq!(calc.history().len(), 2);
    assert_eq!(calc.history()[1].result, 999_999_999_993);
    assert_eq!(calc.history()[1].description, "-7 + 1000000000000");
    assert_eq!(calc.subtract(-7).unwrap(), 1_000_000_000_000);
    assert_eq!(calc.multiply(-3).unwrap(), -3_000_000_000_000);
    assert_eq!(calc.history().len(), 4);
    assert_eq!(calc.history()[3].description, "1000000000000 × -3");
}

#[test]
fn failures_leave_state_unchanged() {
    let mut calc = Calculator::new();
    calc.add(i64::MIN).unwrap();
    assert_eq!(calc.subtract(1), Err(CalculatorError::Underflow));
    assert_eq!(calc.add(-1), Err(CalculatorError::Overflow));
    assert_eq!(calc.multiply(2), Err(CalculatorError::Overflow));
    assert_eq!(calc.divide(-1), Err(CalculatorError::Overflow));
    assert_eq!(calc.power(3), Err(CalculatorError::Overflow));
    assert_eq!(calc.current_value(), i64::MIN);
    assert_eq!(calc.history().len(), 1);
}

#[test]
fn subtraction_past_the_top_is_underflow() {
    let mut calc = Calculator::new();
    assert_eq!(calc.subtract(i64::MIN), Err(CalculatorError::Underflow));
    assert_eq!(calc.current_value(), 0);
    assert_eq!(calc.history().len(), 0);
}

#[test]
fn division_by_zero_whatever_the_value() {
    let mut calc = Calculator::new();
    calc.add(42).unwrap();
    assert_eq!(calc.divide(0), Err(CalculatorError::DivisionByZero));
    assert_eq!(calc.modulo(0), Err(CalculatorError::DivisionByZero));
    assert_eq!(calc.current_value(), 42);
    assert_eq!(calc.history().len(), 1);
}

#[test]
fn division_truncates_toward_zero() {
    let mut calc = Calculator::new();
    calc.add(-7).unwrap();
    assert_eq!(calc.divide(2).unwrap(), -3);
    calc.clear();
    calc.add(-7).unwrap();
    assert_eq!(calc.modulo(2).unwrap(), -1);
    calc.clear();
    calc.add(7).unwrap();
    assert_eq!(calc.modulo(-2).unwrap(), 1);
    assert_eq!(calc.history()[1].description, "7 % -2");
    calc.clear();
    calc.add(9).unwrap();
    calc.divide(-4).unwrap();
    assert_eq!(calc.history()[1].description, "9 ÷ -4");
    assert_eq!(calc.current_value(), -2);
}

#[test]
fn smallest_value_modulo_minus_one_is_zero() {
    let mut calc = Calculator::new();
    calc.add(i64::MIN).unwrap();
    assert_eq!(calc.modulo(-1).unwrap(), 0);
}

#[test]
fn factorial_bounds() {
    let mut calc = Calculator::new();
    assert_eq!(calc.factorial().unwrap(), 1);
    calc.clear();
    calc.add(20).unwrap();
    assert_eq!(calc.factorial().unwrap(), 2_432_902_008_176_640_000);
    assert_eq!(calc.history()[1].description, "20!");
    calc.clear();
    calc.add(21).unwrap();
    assert_eq!(calc.factorial(), Err(CalculatorError::Overflow));
    assert_eq!(calc.current_value(), 21);
    calc.clear();
    calc.subtract(1).unwrap();
    assert_eq!(
        calc.factorial(),
        Err(CalculatorError::Invalid(String::from("factorial of negative")))
    );
    assert_eq!(calc.current_value(), -1);
}

#[test]
fn power_cases() {
    let mut calc = Calculator::new();
    calc.add(-2).unwrap();
    assert_eq!(calc.power(63).unwrap(), i64::MIN);
    assert_eq!(calc.history()[1].description, "pow(-2, 63)");
    calc.clear();
    calc.add(2).unwrap();
    assert_eq!(calc.power(63), Err(CalculatorError::Overflow));
    assert_eq!(calc.power(0).unwrap(), 1);
    calc.clear();
    calc.add(-1).unwrap();
    assert_eq!(calc.power(i64::MAX).unwrap(), -1);
    assert_eq!(calc.power(-1), Err(CalculatorError::Invalid(String::from("negative exponent"))));
    calc.clear();
    assert_eq!(calc.power(0).unwrap(), 1);
    assert_eq!(calc.power(5).unwrap(), 1);
    calc.clear();
    assert_eq!(calc.power(5).unwrap(), 0);
}

#[test]
fn negate_records_its_text() {
    let mut calc = Calculator::new();
    calc.add(10).unwrap();
    assert_eq!(calc.negate().unwrap(), -10);
    assert_eq!(calc.history()[1].description, "neg(10)");
}

#[test]
fn full_history_drops_the_oldest() {
    let mut calc = Calculator::with_capacity(3);
    calc.add(1).unwrap();
    calc.add(2).unwrap();
    calc.add(3).unwrap();
    calc.add(4).unwrap();
    assert_eq!(calc.history().len(), 3);
    assert_eq!(calc.history()[0].description, "1 + 2");
    assert_eq!(
        calc.history_as_string(),
        "1. 1 + 2 = 3\n2. 3 + 3 = 6\n3. 6 + 4 = 10\n"
    );
}

#[test]
fn clear_and_clear_history() {
    let mut calc = Calculator::with_capacity(5);
    calc.add(3).unwrap();
    calc.clear_history();
    assert_eq!(calc.current_value(), 3);
    assert_eq!(calc.history_as_string(), "");
    calc.add(1).unwrap();
    assert_eq!(calc.history()[0].description, "3 + 1");
    calc.clear();
    assert_eq!(calc.current_value(), 0);
    assert_eq!(calc.history().len(), 0);
}

#[test]
fn end_to_end_session() {
    let mut calc = Calculator::new();
    calc.add(10).unwrap();
    calc.multiply(3).unwrap();
    calc.subtract(5).unwrap();
    assert_eq!(calc.current_value(), 25);
    assert_eq!(calc.history().len(), 3);
    let listing = calc.history_as_string();
    assert_eq!(listing, "1. 0 + 10 = 10\n2. 10 × 3 = 30\n3. 30 - 5 = 25\n");
    assert!(listing.ends_with("30 - 5 = 25\n"));
}

#[test]
fn checked_helpers_report_kinds() {
    assert_eq!(checked_subtract(i64::MIN, 1), Err(CalculatorError::Underflow));
    assert_eq!(checked_multiply(i64::MAX, 2), Err(CalculatorError::Overflow));
    assert_eq!(checked_divide(i64::MIN, -1), Err(CalculatorError::Overflow));
    assert_eq!(checked_divide(10, 0), Err(CalculatorError::DivisionByZero));
    assert_eq!(checked_divide(-15, 4), Ok(-3));
}

#[test]
fn saturating_and_wrapping_edges() {
    assert_eq!(saturating::add(i64::MIN, -1), i64::MIN);
    assert_eq!(saturating::subtract(i64::MAX, -1), i64::MAX);
    assert_eq!(saturating::multiply(i64::MIN, 2), i64::MIN);
    assert_eq!(saturating::multiply(-4, 5), -20);
    assert_eq!(wrapping::add(i64::MIN, -1), i64::MAX);
    assert_eq!(wrapping::multiply(i64::MAX, 2), -2);
    assert_eq!(wrapping::subtract(5, 7), -2);
}

#[test]
fn error_messages() {
    assert_eq!(CalculatorError::Overflow.message(), "arithmetic overflow");
    assert_eq!(CalculatorError::Underflow.message(), "arithmetic underflow");
    assert_eq!(
        CalculatorError::Invalid(String::from("factorial of negative")).message(),
        "invalid operation: factorial of negative"
    );
    assert_eq!(ShapeError::ZeroValue.message(), "zero values are not allowed");
    assert_eq!(
        ShapeError::InvalidDimension(String::from("width")).message(),
        "invalid dimension: width"
    );
}
