use std::cell::Cell;

use symbolics::eval::{FunctionMap, Operation, ValueMap};
use symbolics::{BinaryOperator, Expression, EULER, ONE, TWO, ZERO};

fn arithmetic(operation: Operation) -> u64 {
    let value = match operation {
        Operation::Negation(x) => -f64::from_bits(x),
        Operation::Sine(x) => f64::from_bits(x).sin(),
        Operation::Cosine(x) => f64::from_bits(x).cos(),
        Operation::Binary(operator, a, b) => {
            let (a, b) = (f64::from_bits(a), f64::from_bits(b));
            match operator {
                BinaryOperator::Addition => a + b,
                BinaryOperator::Subtraction => a - b,
                BinaryOperator::Multiplication => a * b,
                BinaryOperator::Division => a / b,
                BinaryOperator::Power => a.powf(b),
                BinaryOperator::Logarithm => b.log(a),
            }
        }
    };
    value.to_bits()
}

fn sym(name: &str) -> Expression {
    Expression::Symbol(String::from(name))
}

fn val(value: f64) -> Expression {
    Expression::Constant(value.to_bits())
}

fn func(name: &str, arguments: Vec<Expression>) -> Expression {
    Expression::Function { name: String::from(name), arguments }
}

fn no_functions() -> FunctionMap<fn(Vec<u64>) -> u64> {
    FunctionMap::new()
}

fn bindings(pairs: &[(&str, f64)]) -> ValueMap {
    let mut values = ValueMap::new();
    for (name, value) in pairs {
        values.insert(String::from(*name), value.to_bits());
    }
    values
}

fn value_of(expression: Expression, values: &ValueMap) -> Option<f64> {
    expression.eval(values, &no_functions(), arithmetic).map(f64::from_bits)
}

#[test]
fn the_named_constants_are_the_bit_patterns_of_their_values() {
    assert_eq!(f64::from_bits(ZERO), 0.0);
    assert!(f64::from_bits(ZERO).is_sign_positive());
    assert_eq!(f64::from_bits(ONE), 1.0);
    assert_eq!(f64::from_bits(TWO), 2.0);
    assert_eq!(f64::from_bits(EULER), 2.71828182845904523536);
}

#[test]
fn a_missing_symbol_makes_the_sum_undefined() {
    let sum = sym("x") + val(1.0);
    assert_eq!(value_of(sum, &ValueMap::new()), None);
}

#[test]
fn a_product_of_a_symbol_and_a_constant() {
    let weight = sym("m") * val(9.81);
    let result = value_of(weight, &bindings(&[("m", 10.0)])).unwrap();
    assert_eq!(result, 10.0 * 9.81);
    assert!((result - 98.1).abs() < 1e-9);
}

#[test]
fn a_constant_evaluates_to_itself() {
    assert_eq!(value_of(val(69.420), &ValueMap::new()), Some(69.420));
    assert_eq!(
        Expression::Constant(0x7FF0_0000_0000_0000).eval(&ValueMap::new(), &no_functions(), arithmetic),
        Some(0x7FF0_0000_0000_0000)
    );
}

#[test]
fn the_euler_number_evaluates_to_its_literal() {
    assert_eq!(value_of(Expression::EulerNumber, &ValueMap::new()), Some(2.71828182845904523536));
    assert_eq!(
        Expression::EulerNumber.eval(&ValueMap::new(), &no_functions(), arithmetic),
        Some(EULER)
    );
}

#[test]
fn a_symbol_evaluates_to_its_binding() {
    let values = bindings(&[("x", 3.5), ("y", -1.0)]);
    assert_eq!(value_of(sym("x"), &values), Some(3.5));
    assert_eq!(value_of(sym("y"), &values), Some(-1.0));
    assert_eq!(value_of(sym("z"), &values), None);
}

#[test]
fn negation_sine_and_cosine() {
    let values = bindings(&[("x", 0.5)]);
    assert_eq!(value_of(-sym("x"), &values), Some(-0.5));
    assert_eq!(value_of(sym("x").sin(), &values), Some(0.5f64.sin()));
    assert_eq!(value_of(sym("x").cos(), &values), Some(0.5f64.cos()));
    assert_eq!(value_of(-sym("u"), &values), None);
    assert_eq!(value_of(sym("u").sin(), &values), None);
    assert_eq!(value_of(sym("u").cos(), &values), None);
}

#[test]
fn the_four_elementary_operations() {
    let values = bindings(&[("a", 7.0), ("b", 2.0)]);
    assert_eq!(value_of(sym("a") + sym("b"), &values), Some(9.0));
    assert_eq!(value_of(sym("a") - sym("b"), &values), Some(5.0));
    assert_eq!(value_of(sym("a") * sym("b"), &values), Some(14.0));
    assert_eq!(value_of(sym("a") / sym("b"), &values), Some(3.5));
}

#[test]
fn power_takes_the_base_first() {
    let values = bindings(&[("a", 2.0), ("b", 10.0)]);
    assert_eq!(value_of(sym("a").pow(sym("b")), &values), Some(1024.0));
    assert_eq!(value_of(sym("b").pow(sym("a")), &values), Some(100.0));
}

#[test]
fn logarithm_takes_the_base_first() {
    let values = bindings(&[("base", 2.0), ("argument", 8.0)]);
    let result = value_of(sym("base").log(sym("argument")), &values).unwrap();
    assert!((result - 3.0).abs() < 1e-12);
    let natural = value_of(Expression::EulerNumber.log(val(1.0)), &values).unwrap();
    assert_eq!(natural, 0.0);
}

#[test]
fn square_root_is_the_power_one_half() {
    let values = bindings(&[("x", 16.0)]);
    assert_eq!(value_of(sym("x").sqrt(), &values), Some(4.0));
}

#[test]
fn division_by_zero_is_a_value() {
    let values = ValueMap::new();
    assert_eq!(value_of(val(1.0) / val(0.0), &values), Some(f64::INFINITY));
    assert_eq!(value_of(val(-1.0) / val(0.0), &values), Some(f64::NEG_INFINITY));
    let nan = value_of(val(0.0) / val(0.0), &values);
    assert!(nan.is_some());
    assert!(nan.unwrap().is_nan());
}

#[test]
fn a_power_of_a_negative_base_is_a_value() {
    let result = value_of(val(-8.0).pow(val(0.5)), &ValueMap::new());
    assert!(result.is_some());
    assert!(result.unwrap().is_nan());
}

#[test]
fn an_undefined_operand_makes_the_operation_undefined() {
    let values = bindings(&[("a", 1.0)]);
    assert_eq!(value_of(sym("a") + sym("u"), &values), None);
    assert_eq!(value_of(sym("u") + sym("a"), &values), None);
    assert_eq!(value_of(sym("u") * sym("v"), &values), None);
    assert_eq!(value_of((sym("a") / sym("u")).sin() - val(1.0), &values), None);
}

#[test]
fn a_function_receives_its_arguments_in_order() {
    let values = bindings(&[("a", 10.0), ("b", 4.0)]);
    let mut functions: FunctionMap<fn(Vec<u64>) -> u64> = FunctionMap::new();
    functions.insert(String::from("difference"), |inputs| {
        assert_eq!(inputs.len(), 3);
        (f64::from_bits(inputs[0]) - f64::from_bits(inputs[1]) * f64::from_bits(inputs[2]))
            .to_bits()
    });
    let call = func("difference", vec![sym("a"), sym("b"), val(2.0)]);
    let result = call.eval(&values, &functions, arithmetic).map(f64::from_bits);
    assert_eq!(result, Some(2.0));
}

#[test]
fn a_function_of_no_arguments() {
    let mut functions: FunctionMap<fn(Vec<u64>) -> u64> = FunctionMap::new();
    functions.insert(String::from("answer"), |inputs| {
        assert!(inputs.is_empty());
        42.0f64.to_bits()
    });
    let result = func("answer", vec![]).eval(&ValueMap::new(), &functions, arithmetic);
    assert_eq!(result.map(f64::from_bits), Some(42.0));
}

#[test]
fn functions_may_be_boxed_closures() {
    let offset = 0.5;
    let mut functions: FunctionMap<Box<dyn Fn(Vec<u64>) -> u64>> = FunctionMap::new();
    functions
        .insert(String::from("shift"), Box::new(move |inputs| (f64::from_bits(inputs[0]) + offset).to_bits()));
    functions.insert(String::from("twice"), Box::new(|inputs| (2.0 * f64::from_bits(inputs[0])).to_bits()));
    let tree = func("shift", vec![func("twice", vec![sym("x")])]);
    let result = tree.eval(&bindings(&[("x", 3.0)]), &functions, arithmetic);
    assert_eq!(result.map(f64::from_bits), Some(6.5));
}

#[test]
fn an_unbound_function_is_undefined() {
    let values = bindings(&[("a", 1.0)]);
    let call = func("f", vec![sym("a")]);
    assert_eq!(call.eval(&values, &no_functions(), arithmetic), None);
}

#[test]
fn a_function_with_an_undefined_argument_is_not_called() {
    let called = Cell::new(false);
    let mut functions = FunctionMap::new();
    functions.insert(String::from("f"), |inputs: Vec<u64>| {
        called.set(true);
        inputs[0]
    });
    let values = bindings(&[("a", 1.0)]);
    let undefined = func("f", vec![sym("a"), sym("u")]);
    assert_eq!(undefined.eval(&values, &functions, arithmetic), None);
    assert!(!called.get());
    let defined = func("f", vec![sym("a"), sym("a")]);
    assert_eq!(defined.eval(&values, &functions, arithmetic).map(f64::from_bits), Some(1.0));
    assert!(called.get());
}

#[test]
fn a_tree_with_every_name_bound_has_a_value() {
    let tree = (sym("x") + func("f", vec![sym("y"), val(0.0)])) / (sym("x") - sym("x"))
        * sym("y").sin().pow(-sym("x").cos())
        + val(2.0).log(sym("y"));
    let values = bindings(&[("x", 1.0), ("y", -2.0)]);
    let mut functions: FunctionMap<fn(Vec<u64>) -> u64> = FunctionMap::new();
    functions.insert(String::from("f"), |inputs| inputs[0]);
    assert!(tree.eval(&values, &functions, arithmetic).is_some());
}

#[test]
fn evaluate_leaves_the_tree_to_the_caller() {
    let tree = sym("x") * val(3.0);
    let functions = no_functions();
    let first = tree.evaluate(&bindings(&[("x", 2.0)]), &functions, &arithmetic);
    let second = tree.evaluate(&bindings(&[("x", 5.0)]), &functions, &arithmetic);
    assert_eq!(first.map(f64::from_bits), Some(6.0));
    assert_eq!(second.map(f64::from_bits), Some(15.0));
}

#[test]
fn the_arithmetic_is_asked_with_the_operands_in_order() {
    let asked = Cell::new(None);
    let recording = |operation: Operation| {
        asked.set(Some(operation));
        7u64
    };
    let tree = Expression::Constant(3).pow(Expression::Constant(4));
    let result = tree.eval(&ValueMap::new(), &no_functions(), recording);
    assert_eq!(result, Some(7));
    assert_eq!(asked.get(), Some(Operation::Binary(BinaryOperator::Power, 3, 4)));
    let tree = Expression::Constant(3).log(Expression::Constant(4));
    tree.eval(&ValueMap::new(), &no_functions(), recording);
    assert_eq!(asked.get(), Some(Operation::Binary(BinaryOperator::Logarithm, 3, 4)));
    (-Expression::Constant(5)).eval(&ValueMap::new(), &no_functions(), recording);
    assert_eq!(asked.get(), Some(Operation::Negation(5)));
    Expression::Constant(6).sin().eval(&ValueMap::new(), &no_functions(), recording);
    assert_eq!(asked.get(), Some(Operation::Sine(6)));
    Expression::Constant(8).cos().eval(&ValueMap::new(), &no_functions(), recording);
    assert_eq!(asked.get(), Some(Operation::Cosine(8)));
}
