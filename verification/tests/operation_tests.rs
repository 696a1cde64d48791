use distributed_calculator::operation::Operation;

#[test]
fn test_correct_parsing() {
    assert_eq!(Operation::from_str("+ 10"), Ok(Operation::Add(10)));
    assert_eq!(Operation::from_str("- 20"), Ok(Operation::Sub(20)));
    assert_eq!(Operation::from_str("* 30"), Ok(Operation::Mul(30)));
    assert_eq!(Operation::from_str("/ 40"), Ok(Operation::Div(40)));
}

#[test]
fn test_incorrect_quantity_of_arguments() {
    assert_eq!(Operation::from_str("+"), Err("expected 2 arguments".to_string()));
    assert_eq!(Operation::from_str("+ 10 20"), Err("expected 2 arguments".to_string()));
}

#[test]
fn test_not_an_integer_operand() {
    assert_eq!(
        Operation::from_str("+ ten"),
        Err("parsing error: invalid integer: invalid digit found in string".to_string())
    );
}

#[test]
fn test_too_large_integer() {
    assert_eq!(
        Operation::from_str("+ 300"),
        Err("parsing error: invalid integer: number too large to fit in target type".to_string())
    );
}

#[test]
fn test_unknown_operation() {
    assert_eq!(
        Operation::from_str("% 10"),
        Err("parsing error: unknown operation: %".to_string())
    );
}

#[test]
fn test_division_by_zero() {
    assert_eq!(Operation::from_str("/ 0"), Err("division by zero".to_string()));
}

#[test]
fn test_operand_accepts_leading_plus_sign() {
    assert_eq!(Operation::from_str("+ +5"), Ok(Operation::Add(5)));
}

#[test]
fn test_operand_rejects_lone_plus_sign() {
    assert_eq!(
        Operation::from_str("- +"),
        Err("parsing error: invalid integer: invalid digit found in string".to_string())
    );
}

#[test]
fn test_operand_rejects_negative_number() {
    assert_eq!(
        Operation::from_str("+ -1"),
        Err("parsing error: invalid integer: invalid digit found in string".to_string())
    );
}

#[test]
fn test_operand_boundaries() {
    assert_eq!(Operation::from_str("+ 0"), Ok(Operation::Add(0)));
    assert_eq!(Operation::from_str("+ 255"), Ok(Operation::Add(255)));
    assert_eq!(
        Operation::from_str("+ 256"),
        Err("parsing error: invalid integer: number too large to fit in target type".to_string())
    );
}

#[test]
fn test_extra_whitespace_between_tokens() {
    assert_eq!(Operation::from_str("  *   7  "), Ok(Operation::Mul(7)));
}
