use distributed_calculator::calculator::Calculator;
use distributed_calculator::operation::Operation;

#[test]
fn test_add() {
    let mut calc = Calculator::new();
    calc.apply(Operation::Add(10));
    assert_eq!(calc.accumulation(), 10);
}

#[test]
fn test_substract() {
    let mut calc = Calculator::new();
    calc.apply(Operation::Add(10));
    calc.apply(Operation::Sub(5));
    assert_eq!(calc.accumulation(), 10 - 5);
}

#[test]
fn test_multiply() {
    let mut calc = Calculator::new();
    calc.apply(Operation::Add(10));
    calc.apply(Operation::Mul(5));
    assert_eq!(calc.accumulation(), 10 * 5);
}

#[test]
fn test_divide() {
    let mut calc = Calculator::new();
    calc.apply(Operation::Add(10));
    calc.apply(Operation::Div(2));
    assert_eq!(calc.accumulation(), 10 / 2);
}

#[test]
fn test_add_wraps_at_eight_bits() {
    let mut calc = Calculator::new();
    calc.apply(Operation::Add(250));
    calc.apply(Operation::Add(10));
    assert_eq!(calc.accumulation(), 4);
}

#[test]
fn test_sub_wraps_below_zero() {
    let mut calc = Calculator::new();
    calc.apply(Operation::Sub(1));
    assert_eq!(calc.accumulation(), 255);
}

#[test]
fn test_mul_wraps_at_eight_bits() {
    let mut calc = Calculator::new();
    calc.apply(Operation::Add(100));
    calc.apply(Operation::Mul(3));
    assert_eq!(calc.accumulation(), 44);
}

#[test]
fn test_div_truncates() {
    let mut calc = Calculator::new();
    calc.apply(Operation::Add(7));
    calc.apply(Operation::Div(2));
    assert_eq!(calc.accumulation(), 3);
}

#[test]
fn test_default_is_zero() {
    let calc = Calculator::default();
    assert_eq!(calc.accumulation(), 0);
}
