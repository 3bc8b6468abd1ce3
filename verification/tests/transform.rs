use std::cell::RefCell;

use symbolics::Expression;
use symbolics::Expression::{Constant, EulerNumber};

fn sym(name: &str) -> Expression {
    Expression::Symbol(String::from(name))
}

fn val(value: f64) -> Expression {
    Expression::Constant(value.to_bits())
}

fn func(name: &str, arguments: Vec<Expression>) -> Expression {
    Expression::Function { name: String::from(name), arguments }
}

fn shown(expression: &Expression) -> String {
    format!("{:?}", expression)
}

fn count_constants(expression: &Expression) -> usize {
    match expression {
        Expression::Symbol(_) => 0,
        Expression::Constant(_) => 1,
        Expression::EulerNumber => 0,
        Expression::UnaryOperation { operand, .. } => count_constants(operand),
        Expression::BinaryOperation { first_operand, second_operand, .. } => {
            count_constants(first_operand) + count_constants(second_operand)
        }
        Expression::Function { arguments, .. } => arguments.iter().map(count_constants).sum(),
        Expression::Sine(operand) => count_constants(operand),
        Expression::Cosine(operand) => count_constants(operand),
    }
}

fn label(expression: &Expression) -> String {
    match expression {
        Expression::Symbol(name) => name.clone(),
        Expression::Constant(bits) => format!("{}", f64::from_bits(*bits)),
        Expression::EulerNumber => String::from("e"),
        Expression::UnaryOperation { .. } => String::from("neg"),
        Expression::BinaryOperation { operator, .. } => format!("{:?}", operator),
        Expression::Function { name, .. } => format!("{}()", name),
        Expression::Sine(_) => String::from("sin"),
        Expression::Cosine(_) => String::from("cos"),
    }
}

#[test]
fn change_constant_to_euler_number() {
    let mut x = val(69.420);

    x.transform(|x| matches!(x, Constant(_)), |_x| EulerNumber);

    assert!(matches!(x, EulerNumber));
}

#[test]
fn every_constant_is_replaced() {
    let mut tree = (val(1.0) + sym("x") * val(2.0)).sin()
        / func("f", vec![val(3.0), sym("y").pow(val(4.0)), func("g", vec![-val(5.0)])])
        - val(6.0).log(val(7.0)).cos();
    assert_eq!(count_constants(&tree), 7);

    tree.transform(|x| matches!(x, Constant(_)), |_x| EulerNumber);

    assert_eq!(count_constants(&tree), 0);
    let expected = (EulerNumber + sym("x") * EulerNumber).sin()
        / func("f", vec![EulerNumber, sym("y").pow(EulerNumber), func("g", vec![-EulerNumber])])
        - EulerNumber.log(EulerNumber).cos();
    assert_eq!(shown(&tree), shown(&expected));
}

#[test]
fn every_node_is_visited_once_in_pre_order() {
    let mut tree = (sym("a") + val(1.0)) * func("f", vec![sym("b").sin(), -sym("c")]);
    let before = shown(&tree);
    let visits = RefCell::new(Vec::new());

    tree.transform(
        |x| {
            visits.borrow_mut().push(label(x));
            false
        },
        |x| x,
    );

    assert_eq!(
        visits.into_inner(),
        vec!["Multiplication", "Addition", "a", "1", "f()", "sin", "b", "neg", "c"]
    );
    assert_eq!(shown(&tree), before);
}

#[test]
fn the_children_of_a_mutated_node_are_visited() {
    let mut tree = sym("x") + sym("y");
    let visits = RefCell::new(Vec::new());

    tree.transform(
        |x| {
            visits.borrow_mut().push(label(x));
            matches!(x, Expression::Symbol(name) if name == "x")
        },
        |_x| sym("p") * sym("q"),
    );

    assert_eq!(visits.into_inner(), vec!["Addition", "x", "p", "q", "y"]);
    assert_eq!(shown(&tree), shown(&(sym("p") * sym("q") + sym("y"))));
}

#[test]
fn a_mutated_node_is_not_looked_at_again() {
    let mut tree = sym("x");
    let visits = RefCell::new(Vec::new());

    tree.transform(
        |x| {
            visits.borrow_mut().push(label(x));
            matches!(x, Expression::Symbol(_))
        },
        |_x| sym("y"),
    );

    assert_eq!(visits.into_inner(), vec!["x"]);
    assert_eq!(shown(&tree), shown(&sym("y")));
}

#[test]
fn a_growing_rewrite_stops_at_the_depth() {
    let mut tree = sym("x").sin();

    tree.transform_within(&|x: &Expression| matches!(x, Expression::Sine(_)), &|x: Expression| x.sin(), 3);

    assert_eq!(shown(&tree), shown(&sym("x").sin().sin().sin().sin().sin()));
}

#[test]
fn substitution_of_a_symbol() {
    let mut tree = sym("x") * sym("x") + sym("y");

    tree.transform(
        |x| matches!(x, Expression::Symbol(name) if name == "x"),
        |_x| sym("t").cos(),
    );

    assert_eq!(shown(&tree), shown(&(sym("t").cos() * sym("t").cos() + sym("y"))));
}

#[test]
fn a_mutation_sees_the_node_it_replaces() {
    let mut tree = func("f", vec![sym("a"), sym("b")]);

    tree.transform(
        |x| matches!(x, Expression::Symbol(_)),
        |x| match x {
            Expression::Symbol(name) => Expression::Symbol(format!("{}_0", name)),
            other => other,
        },
    );

    assert_eq!(shown(&tree), shown(&func("f", vec![sym("a_0"), sym("b_0")])));
}

#[test]
fn a_pass_of_depth_zero_visits_the_root_only() {
    let replace = |_x: Expression| EulerNumber;
    let is_constant = |x: &Expression| matches!(x, Constant(_));

    let mut leaf = val(1.0);
    leaf.transform_within(&is_constant, &replace, 0);
    assert_eq!(shown(&leaf), shown(&EulerNumber));

    let mut tree = val(1.0) + val(2.0);
    tree.transform_within(&is_constant, &replace, 0);
    assert_eq!(shown(&tree), shown(&(val(1.0) + val(2.0))));
}

#[test]
fn a_pass_of_depth_one_stops_below_the_children() {
    let replace = |_x: Expression| EulerNumber;
    let is_constant = |x: &Expression| matches!(x, Constant(_));

    let mut tree = val(1.0) + val(2.0).sin();
    tree.transform_within(&is_constant, &replace, 1);
    assert_eq!(shown(&tree), shown(&(EulerNumber + val(2.0).sin())));

    let mut tree = func("f", vec![val(1.0), -val(2.0), val(3.0)]);
    tree.transform_within(&is_constant, &replace, 1);
    assert_eq!(shown(&tree), shown(&func("f", vec![EulerNumber, -val(2.0), EulerNumber])));
}
