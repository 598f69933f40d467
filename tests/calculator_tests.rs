use calckit::accumulator::Calculator;
use calckit::checked::{checked_add, checked_divide, checked_multiply, checked_subtract};
use calckit::error::CalculatorError;
use calckit::saturating;
use calckit::shapes::ShapeError;
use calckit::wrapping;

#[test]
fn calculator_creation() {
    let calc = Calculator::new();
    assert_eq!(calc.current_value(), 0);

    let calc_with_cap = Calculator::with_capacity(50);
    assert_eq!(calc_with_cap.current_value(), 0);
}

#[test]
fn basic_arithmetic() {
    let mut calc = Calculator::new();

    assert_eq!(calc.add(10).unwrap(), 10);
    assert_eq!(calc.subtract(3).unwrap(), 7);
    assert_eq!(calc.multiply(4).unwrap(), 28);
    assert_eq!(calc.divide(7).unwrap(), 4);
    assert_eq!(calc.modulo(3).unwrap(), 1);
}

#[test]
fn advanced_operations() {
    let mut calc = Calculator::new();

    calc.add(5).unwrap();
    assert_eq!(calc.negate().unwrap(), -5);
    assert_eq!(calc.negate().unwrap(), 5);

    calc.clear();
    calc.add(3).unwrap();
    assert_eq!(calc.power(4).unwrap(), 81);

    calc.clear();
    calc.add(5).unwrap();
    assert_eq!(calc.factorial().unwrap(), 120);
}

#[test]
fn error_handling() {
    let mut calc = Calculator::new();

    // Division by zero
    assert!(matches!(calc.divide(0), Err(CalculatorError::DivisionByZero)));
    assert!(matches!(calc.modulo(0), Err(CalculatorError::DivisionByZero)));

    // Overflow
    calc.add(i64::MAX).unwrap();
    assert!(matches!(calc.add(1), Err(CalculatorError::Overflow)));

    calc.clear();
    calc.add(i64::MIN).unwrap();
    assert!(matches!(calc.negate(), Err(CalculatorError::Overflow)));

    // Invalid factorial
    calc.clear();
    calc.subtract(1).unwrap();
    assert!(matches!(calc.factorial(), Err(CalculatorError::Invalid(_))));

    calc.clear();
    calc.add(25).unwrap();
    assert!(matches!(calc.factorial(), Err(CalculatorError::Overflow)));
}

#[test]
fn history_functionality() {
    let mut calc = Calculator::new();

    calc.add(10).unwrap();
    calc.multiply(2).unwrap();
    calc.subtract(5).unwrap();

    assert_eq!(calc.history().len(), 3);
    assert_eq!(calc.current_value(), 15);

    let history_string = calc.history_as_string();
    assert!(history_string.contains("0 + 10 = 10"));
    assert!(history_string.contains("10 × 2 = 20"));
    assert!(history_string.contains("20 - 5 = 15"));
}

#[test]
fn history_capacity() {
    let mut calc = Calculator::with_capacity(2);

    calc.add(1).unwrap();
    calc.add(1).unwrap();
    calc.add(1).unwrap(); // This should push out the first entry

    assert_eq!(calc.history().len(), 2);
    assert!(!calc.history_as_string().contains("0 + 1 = 1"));
}

#[test]
fn clear_operations() {
    let mut calc = Calculator::new();

    calc.add(10).unwrap();
    calc.multiply(2).unwrap();

    calc.clear_history();
    assert_eq!(calc.history().len(), 0);
    assert_eq!(calc.current_value(), 20);

    calc.clear();
    assert_eq!(calc.current_value(), 0);
    assert_eq!(calc.history().len(), 0);
}

#[test]
fn standalone_functions() {
    assert_eq!(checked_add(5, 3).unwrap(), 8);
    assert_eq!(checked_subtract(10, 4).unwrap(), 6);
    assert_eq!(checked_multiply(7, 6).unwrap(), 42);
    assert_eq!(checked_divide(15, 3).unwrap(), 5);

    assert!(checked_add(i64::MAX, 1).is_err());
    assert!(checked_divide(10, 0).is_err());
}

#[test]
fn saturating_operations() {
    assert_eq!(saturating::add(i64::MAX, 1), i64::MAX);
    assert_eq!(saturating::subtract(i64::MIN, 1), i64::MIN);
    assert_eq!(saturating::multiply(i64::MAX, 2), i64::MAX);
}

#[test]
fn wrapping_operations() {
    assert_eq!(wrapping::add(i64::MAX, 1), i64::MIN);
    assert_eq!(wrapping::subtract(i64::MIN, 1), i64::MAX);
    assert_eq!(wrapping::multiply(-1, i64::MIN), i64::MIN);
}

#[test]
fn error_display_formatting() {
    let shape_err = ShapeError::NegativeValue;
    assert_eq!(shape_err.message(), "negative values are not allowed");

    let calc_err = CalculatorError::DivisionByZero;
    assert_eq!(calc_err.message(), "division by zero");
}
