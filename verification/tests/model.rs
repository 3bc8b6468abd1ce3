use symbolics::{BinaryOperator, Expression, UnaryOperator, ONE, TWO};

fn sym(name: &str) -> Expression {
    Expression::Symbol(String::from(name))
}

fn operands(expression: Expression, expected: BinaryOperator) -> (Expression, Expression) {
    match expression {
        Expression::BinaryOperation { first_operand, second_operand, operator } => {
            assert_eq!(operator, expected);
            (*first_operand, *second_operand)
        }
        other => panic!("not a binary operation: {:?}", other),
    }
}

fn is_symbol(expression: &Expression, expected: &str) -> bool {
    matches!(expression, Expression::Symbol(name) if name == expected)
}

#[test]
fn the_operators_build_binary_operations() {
    let (a, b) = operands(sym("a") + sym("b"), BinaryOperator::Addition);
    assert!(is_symbol(&a, "a") && is_symbol(&b, "b"));
    let (a, b) = operands(sym("a") - sym("b"), BinaryOperator::Subtraction);
    assert!(is_symbol(&a, "a") && is_symbol(&b, "b"));
    let (a, b) = operands(sym("a") * sym("b"), BinaryOperator::Multiplication);
    assert!(is_symbol(&a, "a") && is_symbol(&b, "b"));
    let (a, b) = operands(sym("a") / sym("b"), BinaryOperator::Division);
    assert!(is_symbol(&a, "a") && is_symbol(&b, "b"));
}

#[test]
fn pow_puts_the_base_first() {
    let (base, exponent) = operands(sym("base").pow(sym("exponent")), BinaryOperator::Power);
    assert!(is_symbol(&base, "base") && is_symbol(&exponent, "exponent"));
}

#[test]
fn log_puts_the_base_first() {
    let (base, argument) = operands(sym("base").log(sym("argument")), BinaryOperator::Logarithm);
    assert!(is_symbol(&base, "base") && is_symbol(&argument, "argument"));
}

#[test]
fn ln_is_the_logarithm_in_base_e() {
    let (base, argument) = operands(Expression::ln(sym("x")), BinaryOperator::Logarithm);
    assert!(matches!(base, Expression::EulerNumber));
    assert!(is_symbol(&argument, "x"));
}

#[test]
fn negation_sine_and_cosine_wrap_their_operand() {
    match -sym("x") {
        Expression::UnaryOperation { operand, operator } => {
            assert_eq!(operator, UnaryOperator::Negation);
            assert!(is_symbol(&operand, "x"));
        }
        other => panic!("not a negation: {:?}", other),
    }
    assert!(matches!(sym("x").sin(), Expression::Sine(operand) if is_symbol(&operand, "x")));
    assert!(matches!(sym("x").cos(), Expression::Cosine(operand) if is_symbol(&operand, "x")));
}

#[test]
fn sqrt_is_the_power_of_one_over_two() {
    let (base, exponent) = operands(sym("x").sqrt(), BinaryOperator::Power);
    assert!(is_symbol(&base, "x"));
    let (one, two) = operands(exponent, BinaryOperator::Division);
    assert!(matches!(one, Expression::Constant(ONE)));
    assert!(matches!(two, Expression::Constant(TWO)));
}

#[test]
fn construction_does_not_look_at_the_operands() {
    let zero = Expression::Constant(0.0f64.to_bits());
    let (base, argument) = operands(zero.clone().log(-zero.clone()), BinaryOperator::Logarithm);
    assert!(matches!(base, Expression::Constant(0)));
    assert!(matches!(argument, Expression::UnaryOperation { .. }));
    let (numerator, denominator) = operands(sym("x") / zero, BinaryOperator::Division);
    assert!(is_symbol(&numerator, "x"));
    assert!(matches!(denominator, Expression::Constant(0)));
}

#[test]
fn a_sum_with_zero_is_not_simplified() {
    let zero = Expression::Constant(0.0f64.to_bits());
    let (first, second) = operands(zero + sym("x"), BinaryOperator::Addition);
    assert!(matches!(first, Expression::Constant(0)));
    assert!(is_symbol(&second, "x"));
}

#[test]
fn a_clone_is_a_deep_copy() {
    let source = Expression::Function {
        name: String::from("f"),
        arguments: vec![sym("x") * sym("x"), Expression::EulerNumber.log(sym("y")).sin()],
    } + (-Expression::Constant(ONE)).cos();
    let mut copy = source.clone();
    assert_eq!(format!("{:?}", copy), format!("{:?}", source));

    copy.transform(|x| matches!(x, Expression::Symbol(_)), |_x| Expression::EulerNumber);
    assert_ne!(format!("{:?}", copy), format!("{:?}", source));
    assert!(source.depends_on("x"));
    assert!(!copy.depends_on("x"));
}
