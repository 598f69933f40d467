use calckit::calculator::{Calculator, Operation, OperationType};

#[test]
fn signs_and_results() {
    assert_eq!(OperationType::Addition.get_sign(), "+");
    assert_eq!(OperationType::Subtraction.get_sign(), "-");
    assert_eq!(OperationType::Multiplication.get_sign(), "*");
    assert_eq!(OperationType::Addition.perform(2, 3), Some(5));
    assert_eq!(OperationType::Subtraction.perform(2, 3), Some(-1));
    assert_eq!(OperationType::Multiplication.perform(-2, 3), Some(-6));
    assert_eq!(OperationType::Multiplication.perform(i64::MAX, 2), None);
}

#[test]
fn successful_operations_are_recorded() {
    let mut calc = Calculator::new();
    assert_eq!(calc.addition(2, 3), Some(5));
    assert_eq!(calc.subtraction(i64::MIN, 1), None);
    assert_eq!(calc.multiplication(4, -5), Some(-20));
    assert_eq!(calc.history.len(), 2);
    assert_eq!(calc.history[1], Operation::new(4, -5, OperationType::Multiplication));
    assert_eq!(calc.show_history(), "0: 2 + 3 = 5\n1: 4 * -5 = -20\n");
}

#[test]
fn listing_skips_operations_that_overflow() {
    let mut calc = Calculator::new();
    calc.history.push(Operation::new(i64::MAX, 1, OperationType::Addition));
    calc.addition(1, 1);
    assert_eq!(calc.show_history(), "1: 1 + 1 = 2\n");
}

#[test]
fn repeat_replays_and_records() {
    let mut calc = Calculator::new();
    calc.subtraction(10, 4);
    assert_eq!(calc.repeat(0), Some(6));
    assert_eq!(calc.history.len(), 2);
    assert_eq!(calc.repeat(5), None);
    assert_eq!(calc.history.len(), 2);
    calc.clear_history();
    assert!(calc.history.is_empty());
    assert_eq!(calc.repeat(0), None);
}
