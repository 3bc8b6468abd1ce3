//! Numeric evaluation of a tree under bindings for its symbols and functions.
//!
//! All numbers are IEEE-754 binary64 bit patterns. The tree walk, the lookups
//! and the propagation of a missing binding are done here; each floating-point
//! operation is asked of the caller's `arithmetic`.
use vstd::hash_map::StringHashMap;
use vstd::prelude::*;

use crate::term::Term;
use crate::{BinaryOperator, Expression, UnaryOperator, EULER};

verus! {

/// The numbers that the symbols stand for, by name.
pub type ValueMap = StringHashMap<u64>;

/// The callables that the functions stand for, by name. A callable is given
/// the values of the arguments, in order.
pub type FunctionMap<F> = StringHashMap<F>;

/// A numeric primitive together with its operands.
#[derive(Clone, Copy, Debug, PartialEq, Eq)]
pub enum Operation {
    /// The negation of the operand.
    Negation(u64),
    /// The sine of the operand.
    Sine(u64),
    /// The cosine of the operand.
    Cosine(u64),
    /// A binary operation on the first and the second operand: for `Power`,
    /// the base and then the exponent; for `Logarithm`, the base and then
    /// the argument.
    Binary(BinaryOperator, u64, u64),
}

/// The arithmetic that `arithmetic` stands for: the pairs of an operation and
/// an answer that `arithmetic` may give for it.
pub open spec fn computing<A: Fn(Operation) -> u64>(arithmetic: A) -> spec_fn(Operation, u64) -> bool {
    |operation: Operation, value: u64| call_ensures(arithmetic, (operation,), value)
}

/// Whether `function`, called with `inputs` in this order, may return `value`.
pub open spec fn applies<F: Fn(Vec<u64>) -> u64>(function: F, inputs: Seq<u64>, value: u64) -> bool {
    exists|given: Vec<u64>| given@ == inputs && #[trigger] call_ensures(function, (given,), value)
}

/// The applications that `functions` stands for: the name of a bound
/// function, the inputs of a call and a value that the call may return.
pub open spec fn calling<F: Fn(Vec<u64>) -> u64>(functions: Map<Seq<char>, F>) -> spec_fn(
    Seq<char>,
    Seq<u64>,
    u64,
) -> bool {
    |name: Seq<char>, inputs: Seq<u64>, value: u64|
        functions.contains_key(name) && applies(functions[name], inputs, value)
}

impl Term {
    /// Whether every symbol of the tree is in `symbols` and the name of every
    /// function applied in it is in `functions`.
    pub open spec fn is_defined(self, symbols: Set<Seq<char>>, functions: Set<Seq<char>>) -> bool
        decreases self,
    {
        match self {
            Term::Symbol(name) => symbols.contains(name),
            Term::Constant(_) => true,
            Term::EulerNumber => true,
            Term::UnaryOperation { operand, .. } => operand.is_defined(symbols, functions),
            Term::BinaryOperation { first_operand, second_operand, .. } => first_operand.is_defined(
                symbols,
                functions,
            ) && second_operand.is_defined(symbols, functions),
            Term::Function { name, arguments } => functions.contains(name) && forall|i: int|
                0 <= i < arguments.len() ==> (#[trigger] arguments[i]).is_defined(
                    symbols,
                    functions,
                ),
            Term::Sine(operand) => operand.is_defined(symbols, functions),
            Term::Cosine(operand) => operand.is_defined(symbols, functions),
        }
    }

    /// Whether `value` is a value of the tree: each symbol stands for its
    /// binding in `values`, each function is applied as `calls` allows to the
    /// values of its arguments, in order, and every operation is computed as
    /// `computes` allows from the values of its operands.
    pub open spec fn evaluates_to(
        self,
        values: Map<Seq<char>, u64>,
        calls: spec_fn(Seq<char>, Seq<u64>, u64) -> bool,
        computes: spec_fn(Operation, u64) -> bool,
        value: u64,
    ) -> bool
        decreases self,
    {
        match self {
            Term::Symbol(name) => values.contains_key(name) && value == values[name],
            Term::Constant(bits) => value == bits,
            Term::EulerNumber => value == EULER,
            Term::UnaryOperation { operand, operator: UnaryOperator::Negation } => exists|x: u64|
                operand.evaluates_to(values, calls, computes, x) && #[trigger] computes(
                    Operation::Negation(x),
                    value,
                ),
            Term::BinaryOperation { first_operand, second_operand, operator } => exists|
                a: u64,
                b: u64,
            |
                first_operand.evaluates_to(values, calls, computes, a)
                    && second_operand.evaluates_to(values, calls, computes, b)
                    && #[trigger] computes(Operation::Binary(operator, a, b), value),
            Term::Function { name, arguments } => exists|inputs: Seq<u64>|
                inputs.len() == arguments.len() && (forall|i: int|
                    0 <= i < arguments.len() ==> (#[trigger] arguments[i]).evaluates_to(
                        values,
                        calls,
                        computes,
                        inputs[i],
                    )) && #[trigger] calls(name, inputs, value),
            Term::Sine(operand) => exists|x: u64|
                operand.evaluates_to(values, calls, computes, x) && #[trigger] computes(
                    Operation::Sine(x),
                    value,
                ),
            Term::Cosine(operand) => exists|x: u64|
                operand.evaluates_to(values, calls, computes, x) && #[trigger] computes(
                    Operation::Cosine(x),
                    value,
                ),
        }
    }
}

impl Expression {
    /// The value of the tree, or `None` where a symbol or a function of the
    /// tree has no binding.
    ///
    /// `values` binds symbols to numbers and `functions` binds function names
    /// to callables, which receive the values of the arguments in order.
    pub fn eval<F, A>(
        self,
        values: &ValueMap,
        functions: &FunctionMap<F>,
        arithmetic: A,
    ) -> (result: Option<u64>) where F: Fn(Vec<u64>) -> u64, A: Fn(Operation) -> u64
        requires
            forall|operation: Operation| call_requires(arithmetic, (operation,)),
            forall|name: Seq<char>, inputs: Vec<u64>|
                functions@.contains_key(name) ==> call_requires(functions@[name], (inputs,)),
        ensures
            result is Some <==> self@.is_defined(values@.dom(), functions@.dom()),
            result matches Some(value) ==> self@.evaluates_to(
                values@,
                calling(functions@),
                computing(arithmetic),
                value,
            ),
    {
        self.evaluate(values, functions, &arithmetic)
    }

    /// [`Expression::eval`] for a caller that keeps the tree and the arithmetic.
    pub fn evaluate<F, A>(
        &self,
        values: &ValueMap,
        functions: &FunctionMap<F>,
        arithmetic: &A,
    ) -> (result: Option<u64>) where F: Fn(Vec<u64>) -> u64, A: Fn(Operation) -> u64
        requires
            forall|operation: Operation| call_requires(*arithmetic, (operation,)),
            forall|name: Seq<char>, inputs: Vec<u64>|
                functions@.contains_key(name) ==> call_requires(functions@[name], (inputs,)),
        ensures
            result is Some <==> self@.is_defined(values@.dom(), functions@.dom()),
            result matches Some(value) ==> self@.evaluates_to(
                values@,
                calling(functions@),
                computing(*arithmetic),
                value,
            ),
        decreases self@.size(), 1nat,
    {
        match self {
            Expression::Symbol(name) => match values.get(name.as_str()) {
                Some(value) => Some(*value),
                None => None,
            },
            Expression::Constant(bits) => Some(*bits),
            Expression::EulerNumber => Some(EULER),
            Expression::UnaryOperation { operand, operator } => match operator {
                UnaryOperator::Negation => match operand.evaluate(values, functions, arithmetic) {
                    None => None,
                    Some(x) => {
                        let value = arithmetic(Operation::Negation(x));
                        assert(computing(*arithmetic)(Operation::Negation(x), value));
                        Some(value)
                    },
                },
            },
            Expression::BinaryOperation { first_operand, second_operand, operator } => {
                eval_binary_operation(
                    first_operand,
                    second_operand,
                    *operator,
                    values,
                    functions,
                    arithmetic,
                )
            },
            Expression::Function { name, arguments } => {
                proof {
                    Expression::lemma_function_term(*name, *arguments);
                }
                eval_function(name, arguments, values, functions, arithmetic)
            },
            Expression::Sine(arg) => match arg.evaluate(values, functions, arithmetic) {
                None => None,
                Some(x) => {
                    let value = arithmetic(Operation::Sine(x));
                    assert(computing(*arithmetic)(Operation::Sine(x), value));
                    Some(value)
                },
            },
            Expression::Cosine(arg) => match arg.evaluate(values, functions, arithmetic) {
                None => None,
                Some(x) => {
                    let value = arithmetic(Operation::Cosine(x));
                    assert(computing(*arithmetic)(Operation::Cosine(x), value));
                    Some(value)
                },
            },
        }
    }
}

/// The value of a binary operation: `None` as soon as an operand has none,
/// the first operand being evaluated first.
fn eval_binary_operation<F, A>(
    first_operand: &Expression,
    second_operand: &Expression,
    operator: BinaryOperator,
    values: &ValueMap,
    functions: &FunctionMap<F>,
    arithmetic: &A,
) -> (result: Option<u64>) where F: Fn(Vec<u64>) -> u64, A: Fn(Operation) -> u64
    requires
        forall|operation: Operation| call_requires(*arithmetic, (operation,)),
        forall|name: Seq<char>, inputs: Vec<u64>|
            functions@.contains_key(name) ==> call_requires(functions@[name], (inputs,)),
    ensures
        result is Some <==> first_operand@.binary(operator, second_operand@).is_defined(
            values@.dom(),
            functions@.dom(),
        ),
        result matches Some(value) ==> first_operand@.binary(operator, second_operand@).evaluates_to(
            values@,
            calling(functions@),
            computing(*arithmetic),
            value,
        ),
    decreases 1 + first_operand@.size() + second_operand@.size(), 0nat,
{
    match first_operand.evaluate(values, functions, arithmetic) {
        None => None,
        Some(a) => match second_operand.evaluate(values, functions, arithmetic) {
            None => None,
            Some(b) => {
                let value = arithmetic(Operation::Binary(operator, a, b));
                assert(computing(*arithmetic)(Operation::Binary(operator, a, b), value));
                Some(value)
            },
        },
    }
}

/// The value of a function application: `None` where the name has no binding
/// or an argument has no value, in which case the function is not called.
fn eval_function<F, A>(
    name: &String,
    arguments: &Vec<Expression>,
    values: &ValueMap,
    functions: &FunctionMap<F>,
    arithmetic: &A,
) -> (result: Option<u64>) where F: Fn(Vec<u64>) -> u64, A: Fn(Operation) -> u64
    requires
        forall|operation: Operation| call_requires(*arithmetic, (operation,)),
        forall|name: Seq<char>, inputs: Vec<u64>|
            functions@.contains_key(name) ==> call_requires(functions@[name], (inputs,)),
    ensures
        result is Some <==> (Term::Function {
            name: name@,
            arguments: Expression::terms(arguments@),
        }).is_defined(values@.dom(), functions@.dom()),
        result matches Some(value) ==> (Term::Function {
            name: name@,
            arguments: Expression::terms(arguments@),
        }).evaluates_to(values@, calling(functions@), computing(*arithmetic), value),
    decreases 1 + Term::total_size(Expression::terms(arguments@)), 0nat,
{
    let ghost terms = Expression::terms(arguments@);
    let ghost node = Term::Function { name: name@, arguments: terms };
    match functions.get(name.as_str()) {
        None => None,
        Some(function) => {
            let mut inputs: Vec<u64> = Vec::new();
            let mut i: usize = 0;
            while i < arguments.len()
                invariant
                    i <= arguments.len(),
                    inputs.len() == i,
                    terms == Expression::terms(arguments@),
                    node == (Term::Function { name: name@, arguments: terms }),
                    forall|operation: Operation| call_requires(*arithmetic, (operation,)),
                    forall|name: Seq<char>, inputs: Vec<u64>|
                        functions@.contains_key(name) ==> call_requires(
                            functions@[name],
                            (inputs,),
                        ),
                    forall|k: int|
                        0 <= k < i ==> (#[trigger] terms[k]).is_defined(
                            values@.dom(),
                            functions@.dom(),
                        ),
                    forall|k: int|
                        0 <= k < i ==> (#[trigger] terms[k]).evaluates_to(
                            values@,
                            calling(functions@),
                            computing(*arithmetic),
                            inputs[k],
                        ),
                decreases arguments.len() - i,
            {
                proof {
                    Term::lemma_element_size(terms, i as int);
                }
                match arguments[i].evaluate(values, functions, arithmetic) {
                    None => {
                        assert(!node->Function_arguments[i as int].is_defined(
                            values@.dom(),
                            functions@.dom(),
                        ));
                        return None;
                    },
                    Some(value) => {
                        inputs.push(value);
                    },
                }
                i += 1;
            }
            let ghost given = inputs;
            let value = function(inputs);
            assert(applies(functions@[name@], given@, value));
            assert(calling(functions@)(node->Function_name, given@, value));
            Some(value)
        },
    }
}

/// A tree has a value only where every symbol and every function in it is
/// bound: a missing binding leaves the whole tree without a value.
pub proof fn lemma_value_needs_every_binding(
    term: Term,
    values: Map<Seq<char>, u64>,
    calls: spec_fn(Seq<char>, Seq<u64>, u64) -> bool,
    computes: spec_fn(Operation, u64) -> bool,
    value: u64,
    functions: Set<Seq<char>>,
)
    requires
        term.evaluates_to(values, calls, computes, value),
        forall|name: Seq<char>, inputs: Seq<u64>, value: u64| #[trigger]
            calls(name, inputs, value) ==> functions.contains(name),
    ensures
        term.is_defined(values.dom(), functions),
    decreases term,
{
    match term {
        Term::Symbol(_) => {},
        Term::Constant(_) => {},
        Term::EulerNumber => {},
        Term::UnaryOperation { operand, .. } => {
            let x = choose|x: u64|
                operand.evaluates_to(values, calls, computes, x) && #[trigger] computes(
                    Operation::Negation(x),
                    value,
                );
            lemma_value_needs_every_binding(*operand, values, calls, computes, x, functions);
        },
        Term::BinaryOperation { first_operand, second_operand, operator } => {
            let (a, b) = choose|a: u64, b: u64|
                first_operand.evaluates_to(values, calls, computes, a)
                    && second_operand.evaluates_to(values, calls, computes, b)
                    && #[trigger] computes(Operation::Binary(operator, a, b), value);
            lemma_value_needs_every_binding(*first_operand, values, calls, computes, a, functions);
            lemma_value_needs_every_binding(*second_operand, values, calls, computes, b, functions);
        },
        Term::Function { name, arguments } => {
            let inputs = choose|inputs: Seq<u64>|
                inputs.len() == arguments.len() && (forall|i: int|
                    0 <= i < arguments.len() ==> (#[trigger] arguments[i]).evaluates_to(
                        values,
                        calls,
                        computes,
                        inputs[i],
                    )) && #[trigger] calls(name, inputs, value);
            assert forall|i: int| 0 <= i < arguments.len() implies (#[trigger] arguments[i]).is_defined(
                values.dom(),
                functions,
            ) by {
                lemma_value_needs_every_binding(
                    arguments[i],
                    values,
                    calls,
                    computes,
                    inputs[i],
                    functions,
                );
            }
        },
        Term::Sine(operand) => {
            let x = choose|x: u64|
                operand.evaluates_to(values, calls, computes, x) && #[trigger] computes(
                    Operation::Sine(x),
                    value,
                );
            lemma_value_needs_every_binding(*operand, values, calls, computes, x, functions);
        },
        Term::Cosine(operand) => {
            let x = choose|x: u64|
                operand.evaluates_to(values, calls, computes, x) && #[trigger] computes(
                    Operation::Cosine(x),
                    value,
                );
            lemma_value_needs_every_binding(*operand, values, calls, computes, x, functions);
        },
    }
}

/// A tree has one value: where the arithmetic and the functions answer each
/// question in one way only, two values of a tree under the same bindings are
/// the same.
pub proof fn lemma_value_is_determined(
    term: Term,
    values: Map<Seq<char>, u64>,
    calls: spec_fn(Seq<char>, Seq<u64>, u64) -> bool,
    computes: spec_fn(Operation, u64) -> bool,
    first: u64,
    second: u64,
)
    requires
        term.evaluates_to(values, calls, computes, first),
        term.evaluates_to(values, calls, computes, second),
        forall|operation: Operation, a: u64, b: u64|
            #[trigger] computes(operation, a) && #[trigger] computes(operation, b) ==> a == b,
        forall|name: Seq<char>, inputs: Seq<u64>, a: u64, b: u64|
            #[trigger] calls(name, inputs, a) && #[trigger] calls(name, inputs, b) ==> a == b,
    ensures
        first == second,
    decreases term,
{
    match term {
        Term::Symbol(_) => {},
        Term::Constant(_) => {},
        Term::EulerNumber => {},
        Term::UnaryOperation { operand, .. } => {
            let x = choose|x: u64|
                operand.evaluates_to(values, calls, computes, x) && #[trigger] computes(
                    Operation::Negation(x),
                    first,
                );
            let y = choose|y: u64|
                operand.evaluates_to(values, calls, computes, y) && #[trigger] computes(
                    Operation::Negation(y),
                    second,
                );
            lemma_value_is_determined(*operand, values, calls, computes, x, y);
        },
        Term::BinaryOperation { first_operand, second_operand, operator } => {
            let (a, b) = choose|a: u64, b: u64|
                first_operand.evaluates_to(values, calls, computes, a)
                    && second_operand.evaluates_to(values, calls, computes, b)
                    && #[trigger] computes(Operation::Binary(operator, a, b), first);
            let (c, d) = choose|c: u64, d: u64|
                first_operand.evaluates_to(values, calls, computes, c)
                    && second_operand.evaluates_to(values, calls, computes, d)
                    && #[trigger] computes(Operation::Binary(operator, c, d), second);
            lemma_value_is_determined(*first_operand, values, calls, computes, a, c);
            lemma_value_is_determined(*second_operand, values, calls, computes, b, d);
        },
        Term::Function { name, arguments } => {
            let a = choose|inputs: Seq<u64>|
                inputs.len() == arguments.len() && (forall|i: int|
                    0 <= i < arguments.len() ==> (#[trigger] arguments[i]).evaluates_to(
                        values,
                        calls,
                        computes,
                        inputs[i],
                    )) && #[trigger] calls(name, inputs, first);
            let b = choose|inputs: Seq<u64>|
                inputs.len() == arguments.len() && (forall|i: int|
                    0 <= i < arguments.len() ==> (#[trigger] arguments[i]).evaluates_to(
                        values,
                        calls,
                        computes,
                        inputs[i],
                    )) && #[trigger] calls(name, inputs, second);
            assert forall|i: int| 0 <= i < arguments.len() implies a[i] == b[i] by {
                lemma_value_is_determined(arguments[i], values, calls, computes, a[i], b[i]);
            }
            assert(a =~= b);
        },
        Term::Sine(operand) => {
            let x = choose|x: u64|
                operand.evaluates_to(values, calls, computes, x) && #[trigger] computes(
                    Operation::Sine(x),
                    first,
                );
            let y = choose|y: u64|
                operand.evaluates_to(values, calls, computes, y) && #[trigger] computes(
                    Operation::Sine(y),
                    second,
                );
            lemma_value_is_determined(*operand, values, calls, computes, x, y);
        },
        Term::Cosine(operand) => {
            let x = choose|x: u64|
                operand.evaluates_to(values, calls, computes, x) && #[trigger] computes(
                    Operation::Cosine(x),
                    first,
                );
            let y = choose|y: u64|
                operand.evaluates_to(values, calls, computes, y) && #[trigger] computes(
                    Operation::Cosine(y),
                    second,
                );
            lemma_value_is_determined(*operand, values, calls, computes, x, y);
        },
    }
}

} // verus!
