//! Emission of C source text.
//!
//! Every operand is written inside its own brackets, so the text does not
//! lean on the precedence of C's operators. The decimal text of a constant is
//! asked of the caller, who knows how a floating-point number is written.
use vstd::prelude::*;
use vstd::string::StringExecFns;

use crate::term::Term;
use crate::{BinaryOperator, Expression, UnaryOperator};

verus! {

/// How a tree is rendered as C.
pub struct Options {
    /// Whether a `Function` node is written as a call, with its arguments (`true`),
    /// or as its bare name (`false`).
    pub anonymous_as_function: bool,
}

/// Whether `constant_text`, asked to write the constant with the bit pattern
/// `bits`, may answer `text`.
pub open spec fn formats<C: Fn(u64) -> String>(constant_text: C, bits: u64, text: Seq<char>) -> bool {
    exists|answer: String| answer@ == text && #[trigger] call_ensures(constant_text, (bits,), answer)
}

/// The formatter that `constant_text` stands for: the pairs of a bit pattern
/// and a text that `constant_text` may write for it.
pub open spec fn writing<C: Fn(u64) -> String>(constant_text: C) -> spec_fn(u64, Seq<char>) -> bool {
    |bits: u64, text: Seq<char>| formats(constant_text, bits, text)
}

/// The text of the constant e.
pub open spec fn euler_text() -> Seq<char> {
    "2.71828182845904523536"@
}

/// The text of the negation of an operand whose text is `operand`.
pub open spec fn negation_text(operand: Seq<char>) -> Seq<char> {
    "-("@ + operand + ")"@
}

/// The text of a binary operation on operands whose texts are `first` and `second`.
pub open spec fn binary_text(operator: BinaryOperator, first: Seq<char>, second: Seq<char>) -> Seq<
    char,
> {
    match operator {
        BinaryOperator::Addition => "("@ + first + ")+("@ + second + ")"@,
        BinaryOperator::Subtraction => "("@ + first + ")-("@ + second + ")"@,
        BinaryOperator::Multiplication => "("@ + first + ")*("@ + second + ")"@,
        BinaryOperator::Division => "("@ + first + ")/("@ + second + ")"@,
        BinaryOperator::Power => "pow("@ + first + ","@ + second + ")"@,
        BinaryOperator::Logarithm => "log("@ + second + ")/log("@ + first + ")"@,
    }
}

/// The text of the sine of an operand whose text is `operand`.
pub open spec fn sine_text(operand: Seq<char>) -> Seq<char> {
    "sin("@ + operand + ")"@
}

/// The text of the cosine of an operand whose text is `operand`.
pub open spec fn cosine_text(operand: Seq<char>) -> Seq<char> {
    "cos("@ + operand + ")"@
}

/// The texts of `parts`, in order, with a comma between each two.
pub open spec fn comma_separated(parts: Seq<Seq<char>>) -> Seq<char>
    decreases parts.len(),
{
    if parts.len() == 0 {
        Seq::empty()
    } else if parts.len() == 1 {
        parts[0]
    } else {
        comma_separated(parts.drop_last()) + ","@ + parts.last()
    }
}

/// The text of a call of `name` on arguments whose texts are `arguments`.
pub open spec fn call_text(name: Seq<char>, arguments: Seq<Seq<char>>) -> Seq<char> {
    name + "("@ + comma_separated(arguments) + ")"@
}

impl Term {
    /// Whether `text` is the C text of the tree, where `call_functions` says
    /// whether a function is written with its arguments and `writes` holds of
    /// the bit pattern of a constant and a text for it.
    pub open spec fn renders_as(
        self,
        call_functions: bool,
        writes: spec_fn(u64, Seq<char>) -> bool,
        text: Seq<char>,
    ) -> bool
        decreases self,
    {
        match self {
            Term::Symbol(name) => text == name,
            Term::Constant(bits) => writes(bits, text),
            Term::EulerNumber => text == euler_text(),
            Term::UnaryOperation { operand, operator: UnaryOperator::Negation } => exists|
                inner: Seq<char>,
            |
                operand.renders_as(call_functions, writes, inner) && text
                    == #[trigger] negation_text(inner),
            Term::BinaryOperation { first_operand, second_operand, operator } => exists|
                first: Seq<char>,
                second: Seq<char>,
            |
                first_operand.renders_as(call_functions, writes, first)
                    && second_operand.renders_as(call_functions, writes, second) && text
                    == #[trigger] binary_text(operator, first, second),
            Term::Function { name, arguments } => if call_functions {
                exists|parts: Seq<Seq<char>>|
                    parts.len() == arguments.len() && (forall|i: int|
                        0 <= i < arguments.len() ==> (#[trigger] arguments[i]).renders_as(
                            call_functions,
                            writes,
                            parts[i],
                        )) && text == #[trigger] call_text(name, parts)
            } else {
                text == name
            },
            Term::Sine(operand) => exists|inner: Seq<char>|
                operand.renders_as(call_functions, writes, inner) && text
                    == #[trigger] sine_text(inner),
            Term::Cosine(operand) => exists|inner: Seq<char>|
                operand.renders_as(call_functions, writes, inner) && text
                    == #[trigger] cosine_text(inner),
        }
    }
}

impl Expression {
    /// The C text of the tree.
    ///
    /// `constant_text` writes a constant, given as its bit pattern, in decimal.
    pub fn c_print<C>(self, options: &Options, constant_text: C) -> (text: String) where
        C: Fn(u64) -> String,

        requires
            forall|bits: u64| call_requires(constant_text, (bits,)),
        ensures
            self@.renders_as(options.anonymous_as_function, writing(constant_text), text@),
    {
        self.render(options, &constant_text)
    }

    /// [`Expression::c_print`] for a caller that keeps the tree and the formatter.
    pub fn render<C>(&self, options: &Options, constant_text: &C) -> (text: String) where
        C: Fn(u64) -> String,

        requires
            forall|bits: u64| call_requires(*constant_text, (bits,)),
        ensures
            self@.renders_as(options.anonymous_as_function, writing(*constant_text), text@),
        decreases self@.size(), 2nat,
    {
        match self {
            Expression::Symbol(name) => name.clone(),
            Expression::Constant(x) => {
                let text = constant_text(*x);
                assert(formats(*constant_text, *x, text@));
                text
            },
            Expression::EulerNumber => String::from_str("2.71828182845904523536"),
            Expression::UnaryOperation { operand, operator } => {
                print_unary_operation(operand, *operator, options, constant_text)
            },
            Expression::BinaryOperation { first_operand, second_operand, operator } => {
                print_binary_operation(
                    first_operand,
                    second_operand,
                    *operator,
                    options,
                    constant_text,
                )
            },
            Expression::Function { name, arguments } => {
                proof {
                    Expression::lemma_function_term(*name, *arguments);
                }
                print_function(name, arguments, options, constant_text)
            },
            Expression::Sine(arg) => print_sine(arg, options, constant_text),
            Expression::Cosine(arg) => print_cosine(arg, options, constant_text),
        }
    }
}

/// The text of a negation: a minus sign before the operand in brackets.
fn print_unary_operation<C>(
    operand: &Expression,
    operator: UnaryOperator,
    options: &Options,
    constant_text: &C,
) -> (text: String) where C: Fn(u64) -> String
    requires
        forall|bits: u64| call_requires(*constant_text, (bits,)),
    ensures
        (Term::UnaryOperation { operand: Box::new(operand@), operator }).renders_as(
            options.anonymous_as_function,
            writing(*constant_text),
            text@,
        ),
    decreases 1 + operand@.size(), 1nat,
{
    match operator {
        UnaryOperator::Negation => {
            let inner = operand.render(options, constant_text);
            let mut text = String::from_str("-(");
            text.append(inner.as_str());
            text.append(")");
            assert(text@ == negation_text(inner@));
            text
        },
    }
}

/// The text of a binary operation. A power is a call of `pow`; a logarithm
/// is the quotient of the `log` of the argument by the `log` of the base.
fn print_binary_operation<C>(
    first_operand: &Expression,
    second_operand: &Expression,
    operator: BinaryOperator,
    options: &Options,
    constant_text: &C,
) -> (text: String) where C: Fn(u64) -> String
    requires
        forall|bits: u64| call_requires(*constant_text, (bits,)),
    ensures
        first_operand@.binary(operator, second_operand@).renders_as(
            options.anonymous_as_function,
            writing(*constant_text),
            text@,
        ),
    decreases 1 + first_operand@.size() + second_operand@.size(), 1nat,
{
    match operator {
        BinaryOperator::Addition
        | BinaryOperator::Subtraction
        | BinaryOperator::Multiplication
        | BinaryOperator::Division => print_elementary_binary_operation(
            first_operand,
            second_operand,
            operator,
            options,
            constant_text,
        ),
        BinaryOperator::Power => {
            let first = first_operand.render(options, constant_text);
            let second = second_operand.render(options, constant_text);
            let mut text = String::from_str("pow(");
            text.append(first.as_str());
            text.append(",");
            text.append(second.as_str());
            text.append(")");
            assert(text@ == binary_text(operator, first@, second@));
            text
        },
        BinaryOperator::Logarithm => {
            let first = first_operand.render(options, constant_text);
            let second = second_operand.render(options, constant_text);
            let mut text = String::from_str("log(");
            text.append(second.as_str());
            text.append(")/log(");
            text.append(first.as_str());
            text.append(")");
            assert(text@ == binary_text(operator, first@, second@));
            text
        },
    }
}

/// The text of a sum, a difference, a product or a quotient: both operands in
/// brackets, the operator's sign between them.
fn print_elementary_binary_operation<C>(
    first_operand: &Expression,
    second_operand: &Expression,
    operator: BinaryOperator,
    options: &Options,
    constant_text: &C,
) -> (text: String) where C: Fn(u64) -> String
    requires
        operator is Addition || operator is Subtraction || operator is Multiplication
            || operator is Division,
        forall|bits: u64| call_requires(*constant_text, (bits,)),
    ensures
        first_operand@.binary(operator, second_operand@).renders_as(
            options.anonymous_as_function,
            writing(*constant_text),
            text@,
        ),
    decreases 1 + first_operand@.size() + second_operand@.size(), 0nat,
{
    let first = first_operand.render(options, constant_text);
    let second = second_operand.render(options, constant_text);
    let mut text = String::from_str("(");
    text.append(first.as_str());
    match operator {
        BinaryOperator::Addition => text.append(")+("),
        BinaryOperator::Subtraction => text.append(")-("),
        BinaryOperator::Multiplication => text.append(")*("),
        _ => text.append(")/("),
    }
    text.append(second.as_str());
    text.append(")");
    assert(text@ == binary_text(operator, first@, second@));
    text
}

/// The text of an uninterpreted function: its name, followed where
/// `options` asks for a call by its arguments, in brackets and with commas
/// between them.
fn print_function<C>(
    name: &String,
    arguments: &Vec<Expression>,
    options: &Options,
    constant_text: &C,
) -> (text: String) where C: Fn(u64) -> String
    requires
        forall|bits: u64| call_requires(*constant_text, (bits,)),
    ensures
        (Term::Function { name: name@, arguments: Expression::terms(arguments@) }).renders_as(
            options.anonymous_as_function,
            writing(*constant_text),
            text@,
        ),
    decreases 1 + Term::total_size(Expression::terms(arguments@)), 0nat,
{
    let mut text = name.clone();
    if options.anonymous_as_function {
        let ghost terms = Expression::terms(arguments@);
        let ghost mut parts: Seq<Seq<char>> = Seq::empty();
        let mut list = String::new();
        let mut i: usize = 0;
        while i < arguments.len()
            invariant
                i <= arguments.len(),
                parts.len() == i,
                terms == Expression::terms(arguments@),
                forall|bits: u64| call_requires(*constant_text, (bits,)),
                forall|k: int|
                    0 <= k < i ==> (#[trigger] terms[k]).renders_as(
                        options.anonymous_as_function,
                        writing(*constant_text),
                        parts[k],
                    ),
                list@ == comma_separated(parts),
            decreases arguments.len() - i,
        {
            proof {
                Term::lemma_element_size(terms, i as int);
            }
            let part = arguments[i].render(options, constant_text);
            if i > 0 {
                list.append(",");
            }
            list.append(part.as_str());
            proof {
                let extended = parts.push(part@);
                assert(extended.drop_last() == parts);
                parts = extended;
            }
            i += 1;
        }
        text.append("(");
        text.append(list.as_str());
        text.append(")");
        let ghost node = Term::Function { name: name@, arguments: terms };
        assert(text@ == call_text(node->Function_name, parts));
    }
    text
}

/// The text of a sine: a call of `sin`.
fn print_sine<C>(arg: &Expression, options: &Options, constant_text: &C) -> (text: String) where
    C: Fn(u64) -> String,

    requires
        forall|bits: u64| call_requires(*constant_text, (bits,)),
    ensures
        arg@.sine().renders_as(options.anonymous_as_function, writing(*constant_text), text@),
    decreases 1 + arg@.size(), 1nat,
{
    let inner = arg.render(options, constant_text);
    let mut text = String::from_str("sin(");
    text.append(inner.as_str());
    text.append(")");
    assert(text@ == sine_text(inner@));
    text
}

/// The text of a cosine: a call of `cos`.
fn print_cosine<C>(arg: &Expression, options: &Options, constant_text: &C) -> (text: String) where
    C: Fn(u64) -> String,

    requires
        forall|bits: u64| call_requires(*constant_text, (bits,)),
    ensures
        arg@.cosine().renders_as(options.anonymous_as_function, writing(*constant_text), text@),
    decreases 1 + arg@.size(), 1nat,
{
    let inner = arg.render(options, constant_text);
    let mut text = String::from_str("cos(");
    text.append(inner.as_str());
    text.append(")");
    assert(text@ == cosine_text(inner@));
    text
}

/// A tree has one text: where each constant is written in one way only, two
/// renderings of a tree under the same options are the same text.
pub proof fn lemma_text_is_determined(
    term: Term,
    call_functions: bool,
    writes: spec_fn(u64, Seq<char>) -> bool,
    first: Seq<char>,
    second: Seq<char>,
)
    requires
        term.renders_as(call_functions, writes, first),
        term.renders_as(call_functions, writes, second),
        forall|bits: u64, a: Seq<char>, b: Seq<char>|
            #[trigger] writes(bits, a) && #[trigger] writes(bits, b) ==> a == b,
    ensures
        first == second,
    decreases term,
{
    match term {
        Term::Symbol(_) => {},
        Term::Constant(_) => {},
        Term::EulerNumber => {},
        Term::UnaryOperation { operand, .. } => {
            let a = choose|inner: Seq<char>|
                operand.renders_as(call_functions, writes, inner) && first
                    == #[trigger] negation_text(inner);
            let b = choose|inner: Seq<char>|
                operand.renders_as(call_functions, writes, inner) && second
                    == #[trigger] negation_text(inner);
            lemma_text_is_determined(*operand, call_functions, writes, a, b);
        },
        Term::BinaryOperation { first_operand, second_operand, operator } => {
            let (a1, a2) = choose|a1: Seq<char>, a2: Seq<char>|
                first_operand.renders_as(call_functions, writes, a1)
                    && second_operand.renders_as(call_functions, writes, a2) && first
                    == #[trigger] binary_text(operator, a1, a2);
            let (b1, b2) = choose|b1: Seq<char>, b2: Seq<char>|
                first_operand.renders_as(call_functions, writes, b1)
                    && second_operand.renders_as(call_functions, writes, b2) && second
                    == #[trigger] binary_text(operator, b1, b2);
            lemma_text_is_determined(*first_operand, call_functions, writes, a1, b1);
            lemma_text_is_determined(*second_operand, call_functions, writes, a2, b2);
        },
        Term::Function { name, arguments } => {
            if call_functions {
                let a = choose|parts: Seq<Seq<char>>|
                    parts.len() == arguments.len() && (forall|i: int|
                        0 <= i < arguments.len() ==> (#[trigger] arguments[i]).renders_as(
                            call_functions,
                            writes,
                            parts[i],
                        )) && first == #[trigger] call_text(name, parts);
                let b = choose|parts: Seq<Seq<char>>|
                    parts.len() == arguments.len() && (forall|i: int|
                        0 <= i < arguments.len() ==> (#[trigger] arguments[i]).renders_as(
                            call_functions,
                            writes,
                            parts[i],
                        )) && second == #[trigger] call_text(name, parts);
                assert forall|i: int| 0 <= i < arguments.len() implies a[i] == b[i] by {
                    lemma_text_is_determined(
                        arguments[i],
                        call_functions,
                        writes,
                        a[i],
                        b[i],
                    );
                }
                assert(a =~= b);
            }
        },
        Term::Sine(operand) => {
            let a = choose|inner: Seq<char>|
                operand.renders_as(call_functions, writes, inner) && first
                    == #[trigger] sine_text(inner);
            let b = choose|inner: Seq<char>|
                operand.renders_as(call_functions, writes, inner) && second
                    == #[trigger] sine_text(inner);
            lemma_text_is_determined(*operand, call_functions, writes, a, b);
        },
        Term::Cosine(operand) => {
            let a = choose|inner: Seq<char>|
                operand.renders_as(call_functions, writes, inner) && first
                    == #[trigger] cosine_text(inner);
            let b = choose|inner: Seq<char>|
                operand.renders_as(call_functions, writes, inner) && second
                    == #[trigger] cosine_text(inner);
            lemma_text_is_determined(*operand, call_functions, writes, a, b);
        },
    }
}

} // verus!
