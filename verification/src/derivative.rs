//! Structural differentiation: the derivative of a tree with respect to a
//! variable is built by fixed symbolic rules and is never simplified.
use core::ops::Neg;
use vstd::prelude::*;
use vstd::string::StringExecFns;

use crate::term::Term;
use crate::{BinaryOperator, Expression, UnaryOperator, ONE, ZERO};

verus! {

/// Whether `rename`, asked for the name of the derivative of the function
/// `name`, may answer `to`.
pub open spec fn renames<F: Fn(String) -> String>(rename: F, name: Seq<char>, to: Seq<char>) -> bool {
    exists|given: String, answer: String|
        given@ == name && answer@ == to && #[trigger] call_ensures(rename, (given,), answer)
}

/// The renaming rule that `rename` stands for: the pairs of a name and an
/// answer that `rename` may give for it.
pub open spec fn renaming<F: Fn(String) -> String>(rename: F) -> spec_fn(Seq<char>, Seq<char>) -> bool {
    |name: Seq<char>, to: Seq<char>| renames(rename, name, to)
}

impl Term {
    /// The derivative of a binary operation on `u` and `v`, where `du` and
    /// `dv` are the derivatives of `u` and of `v`.
    ///
    /// A sum and a difference are differentiated term by term, a product as
    /// `du * v + u * dv`, a quotient as `(du * v - u * dv) / (v * v)`. A power
    /// is differentiated logarithmically, as
    /// `u^v * (ln(u) * dv + du * v / u)`, whichever of base and exponent
    /// varies. A logarithm of `v` in base `u` is differentiated as the quotient
    /// `ln(v) / ln(u)`, which gives
    /// `((dv / v) * ln(u) - ln(v) * (du / u)) / (ln(u) * ln(u))`.
    pub open spec fn binary_rule(
        operator: BinaryOperator,
        u: Term,
        v: Term,
        du: Term,
        dv: Term,
    ) -> Term {
        match operator {
            BinaryOperator::Addition => du.plus(dv),
            BinaryOperator::Subtraction => du.minus(dv),
            BinaryOperator::Multiplication => du.times(v).plus(u.times(dv)),
            BinaryOperator::Division => du.times(v).minus(u.times(dv)).over(v.times(v)),
            BinaryOperator::Power => u.power(v).times(u.ln().times(dv).plus(du.times(v).over(u))),
            BinaryOperator::Logarithm => dv.over(v).times(u.ln()).minus(
                v.ln().times(du.over(u)),
            ).over(u.ln().times(u.ln())),
        }
    }

    /// Whether `derivative` is the structural derivative of `self` with
    /// respect to `variable`, where `naming` holds of the name of an
    /// uninterpreted function and a name for its derivative.
    ///
    /// An uninterpreted function none of whose arguments depends on `variable`
    /// has the derivative zero. Any other stands for its own derivative under
    /// the new name, with its arguments unchanged: no chain rule is applied
    /// over them.
    pub open spec fn derives_to(
        self,
        variable: Seq<char>,
        naming: spec_fn(Seq<char>, Seq<char>) -> bool,
        derivative: Term,
    ) -> bool
        decreases self,
    {
        match self {
            Term::Symbol(name) => derivative == Term::Constant(
                if name == variable {
                    ONE
                } else {
                    ZERO
                },
            ),
            Term::Constant(_) => derivative == Term::Constant(ZERO),
            Term::EulerNumber => derivative == Term::Constant(ZERO),
            Term::UnaryOperation { operand, operator: UnaryOperator::Negation } => exists|du: Term|
                operand.derives_to(variable, naming, du) && derivative == #[trigger] du.negated(),
            Term::BinaryOperation { first_operand, second_operand, operator } => exists|
                du: Term,
                dv: Term,
            |
                first_operand.derives_to(variable, naming, du) && second_operand.derives_to(
                    variable,
                    naming,
                    dv,
                ) && derivative == #[trigger] Term::binary_rule(
                    operator,
                    *first_operand,
                    *second_operand,
                    du,
                    dv,
                ),
            Term::Function { name, arguments } => if Term::any_depends_on(arguments, variable) {
                exists|to: Seq<char>| #[trigger]
                    naming(name, to) && derivative == (Term::Function {
                        name: to,
                        arguments,
                    })
            } else {
                derivative == Term::Constant(ZERO)
            },
            Term::Sine(operand) => exists|du: Term|
                operand.derives_to(variable, naming, du) && derivative
                    == #[trigger] operand.cosine().times(du),
            Term::Cosine(operand) => exists|du: Term|
                operand.derives_to(variable, naming, du) && derivative
                    == #[trigger] operand.sine().negated().times(du),
        }
    }
}

impl Expression {
    /// The structural derivative of the tree with respect to `variable`.
    ///
    /// `name_mutation` gives the name under which the derivative of an
    /// uninterpreted function is written, and is called once for each such
    /// function that depends on `variable`.
    pub fn derive<F>(self, variable: &str, name_mutation: F) -> (derivative: Self) where
        F: Fn(String) -> String,

        requires
            forall|name: String| call_requires(name_mutation, (name,)),
        ensures
            self@.derives_to(variable@, renaming(name_mutation), derivative@),
    {
        let variable = String::from_str(variable);
        self.differentiate(&variable, &name_mutation)
    }

    /// [`Expression::derive`] for a caller that keeps the variable and the renaming rule.
    pub fn differentiate<F>(self, variable: &String, rename: &F) -> (derivative: Self) where
        F: Fn(String) -> String,

        requires
            forall|name: String| call_requires(*rename, (name,)),
        ensures
            self@.derives_to(variable@, renaming(*rename), derivative@),
        decreases self@.size(), 2nat,
    {
        match self {
            Expression::Symbol(name) => derive_symbol(name, variable),
            Expression::Constant(_) => Expression::Constant(ZERO),
            Expression::EulerNumber => Expression::Constant(ZERO),
            Expression::UnaryOperation { operand, operator } => {
                derive_unary_operation(operand, operator, variable, rename)
            },
            Expression::BinaryOperation { first_operand, second_operand, operator } => {
                derive_binary_operation(first_operand, second_operand, operator, variable, rename)
            },
            Expression::Function { name, arguments } => {
                proof {
                    Expression::lemma_function_term(name, arguments);
                }
                derive_function(name, arguments, variable, rename)
            },
            Expression::Sine(operand) => derive_sine(operand, variable, rename),
            Expression::Cosine(operand) => derive_cosine(operand, variable, rename),
        }
    }

    /// Whether the symbol `variable` occurs anywhere in the tree.
    pub fn depends_on(&self, variable: &str) -> (depends: bool)
        ensures
            depends == self@.depends_on(variable@),
    {
        let variable = String::from_str(variable);
        self.mentions(&variable)
    }

    /// [`Expression::depends_on`] for a caller that holds the variable as a `String`.
    pub fn mentions(&self, variable: &String) -> (depends: bool)
        ensures
            depends == self@.depends_on(variable@),
        decreases self,
    {
        match self {
            Expression::Symbol(name) => *name == *variable,
            Expression::Constant(_) => false,
            Expression::EulerNumber => false,
            Expression::UnaryOperation { operand, operator: _ } => operand.mentions(variable),
            Expression::BinaryOperation { first_operand, second_operand, operator: _ } => {
                first_operand.mentions(variable) || second_operand.mentions(variable)
            },
            Expression::Function { name, arguments } => {
                proof {
                    Expression::lemma_function_term(*name, *arguments);
                }
                any_mentions(arguments, variable)
            },
            Expression::Sine(operand) => operand.mentions(variable),
            Expression::Cosine(operand) => operand.mentions(variable),
        }
    }
}

/// Whether the symbol `variable` occurs in one of `arguments`.
fn any_mentions(arguments: &Vec<Expression>, variable: &String) -> (depends: bool)
    ensures
        depends == Term::any_depends_on(Expression::terms(arguments@), variable@),
    decreases arguments,
{
    let ghost terms = Expression::terms(arguments@);
    let mut i: usize = 0;
    while i < arguments.len()
        invariant
            i <= arguments.len(),
            terms == Expression::terms(arguments@),
            forall|k: int| 0 <= k < i ==> !(#[trigger] terms[k]).depends_on(variable@),
        decreases arguments.len() - i,
    {
        if arguments[i].mentions(variable) {
            assert(terms[i as int].depends_on(variable@));
            return true;
        }
        i += 1;
    }
    false
}

/// The derivative of a symbol: one for the variable itself, zero for any other.
fn derive_symbol(name: String, variable: &String) -> (derivative: Expression)
    ensures
        derivative@ == Term::Constant(
            if name@ == variable@ {
                ONE
            } else {
                ZERO
            },
        ),
{
    if name == *variable {
        Expression::Constant(ONE)
    } else {
        Expression::Constant(ZERO)
    }
}

/// The derivative of a negation: the negation of the derivative.
fn derive_unary_operation<F>(
    operand: Box<Expression>,
    operator: UnaryOperator,
    variable: &String,
    rename: &F,
) -> (derivative: Expression) where F: Fn(String) -> String
    requires
        forall|name: String| call_requires(*rename, (name,)),
    ensures
        (Term::UnaryOperation { operand: Box::new(operand@), operator }).derives_to(
            variable@,
            renaming(*rename),
            derivative@,
        ),
    decreases 1 + operand@.size(), 1nat,
{
    match operator {
        UnaryOperator::Negation => {
            (*operand).differentiate(variable, rename).neg()
        },
    }
}

/// The derivative of a binary operation, by the rule of its operator.
fn derive_binary_operation<F>(
    first_operand: Box<Expression>,
    second_operand: Box<Expression>,
    operator: BinaryOperator,
    variable: &String,
    rename: &F,
) -> (derivative: Expression) where F: Fn(String) -> String
    requires
        forall|name: String| call_requires(*rename, (name,)),
    ensures
        first_operand@.binary(operator, second_operand@).derives_to(
            variable@,
            renaming(*rename),
            derivative@,
        ),
    decreases 1 + first_operand@.size() + second_operand@.size(), 1nat,
{
    let ghost u = first_operand@;
    let ghost v = second_operand@;
    match operator {
        BinaryOperator::Addition => {
            let du = (*first_operand).differentiate(variable, rename);
            let dv = (*second_operand).differentiate(variable, rename);
            let sum = du + dv;
            assert(sum@ == Term::binary_rule(operator, u, v, du@, dv@));
            sum
        },
        BinaryOperator::Subtraction => {
            let du = (*first_operand).differentiate(variable, rename);
            let dv = (*second_operand).differentiate(variable, rename);
            let difference = du - dv;
            assert(difference@ == Term::binary_rule(operator, u, v, du@, dv@));
            difference
        },
        BinaryOperator::Multiplication => {
            let du = (*first_operand).clone().differentiate(variable, rename);
            let dv = (*second_operand).clone().differentiate(variable, rename);
            let ghost (du_term, dv_term) = (du@, dv@);
            let left = du * *second_operand;
            let right = *first_operand * dv;
            let sum = left + right;
            assert(sum@ == Term::binary_rule(operator, u, v, du_term, dv_term));
            sum
        },
        BinaryOperator::Division => {
            let du = (*first_operand).clone().differentiate(variable, rename);
            let dv = (*second_operand).clone().differentiate(variable, rename);
            let ghost (du_term, dv_term) = (du@, dv@);
            let left = du * (*second_operand).clone();
            let right = *first_operand * dv;
            let numerator = left - right;
            let denominator = (*second_operand).clone() * *second_operand;
            let quotient = numerator / denominator;
            assert(quotient@ == Term::binary_rule(operator, u, v, du_term, dv_term));
            quotient
        },
        BinaryOperator::Power => derive_power(first_operand, second_operand, variable, rename),
        BinaryOperator::Logarithm => derive_logarithm(
            first_operand,
            second_operand,
            variable,
            rename,
        ),
    }
}

/// The derivative of a power, by logarithmic differentiation.
fn derive_power<F>(
    first_operand: Box<Expression>,
    second_operand: Box<Expression>,
    variable: &String,
    rename: &F,
) -> (derivative: Expression) where F: Fn(String) -> String
    requires
        forall|name: String| call_requires(*rename, (name,)),
    ensures
        first_operand@.power(second_operand@).derives_to(variable@, renaming(*rename), derivative@),
    decreases 1 + first_operand@.size() + second_operand@.size(), 0nat,
{
    let ghost u = first_operand@;
    let ghost v = second_operand@;
    let df = (*first_operand).clone().differentiate(variable, rename);
    let ds = (*second_operand).clone().differentiate(variable, rename);
    let ghost (du, dv) = (df@, ds@);

    let f = (*first_operand).clone().pow((*second_operand).clone());
    let ln_f = Expression::ln((*first_operand).clone());
    let ln_part = ln_f * ds;
    let scaled = df * *second_operand;
    let quot_part = scaled / *first_operand;
    let sum = ln_part + quot_part;
    let product = f * sum;
    assert(product@ == Term::binary_rule(BinaryOperator::Power, u, v, du, dv));
    product
}

/// The derivative of a logarithm, as that of a quotient of natural logarithms.
fn derive_logarithm<F>(
    first_operand: Box<Expression>,
    second_operand: Box<Expression>,
    variable: &String,
    rename: &F,
) -> (derivative: Expression) where F: Fn(String) -> String
    requires
        forall|name: String| call_requires(*rename, (name,)),
    ensures
        first_operand@.logarithm(second_operand@).derives_to(variable@, renaming(*rename), derivative@),
    decreases 1 + first_operand@.size() + second_operand@.size(), 0nat,
{
    let ghost u = first_operand@;
    let ghost v = second_operand@;
    let df = (*first_operand).clone().differentiate(variable, rename);
    let ds = (*second_operand).clone().differentiate(variable, rename);
    let ghost (du, dv) = (df@, ds@);

    let ln_f = Expression::ln((*first_operand).clone());
    let ln_s = Expression::ln((*second_operand).clone());

    let ds_over_s = ds / *second_operand;
    let df_over_f = df / *first_operand;
    let left = ds_over_s * ln_f.clone();
    let right = ln_s * df_over_f;
    let numerator = left - right;
    let denominator = ln_f.clone() * ln_f;
    let quotient = numerator / denominator;
    assert(quotient@ == Term::binary_rule(BinaryOperator::Logarithm, u, v, du, dv));
    quotient
}

/// The derivative of an uninterpreted function: zero where no argument
/// depends on the variable, else the function under its new name.
fn derive_function<F>(
    name: String,
    arguments: Vec<Expression>,
    variable: &String,
    rename: &F,
) -> (derivative: Expression) where F: Fn(String) -> String
    requires
        forall|name: String| call_requires(*rename, (name,)),
    ensures
        (Term::Function { name: name@, arguments: Expression::terms(arguments@) }).derives_to(
            variable@,
            renaming(*rename),
            derivative@,
        ),
{
    let ghost node = Term::Function { name: name@, arguments: Expression::terms(arguments@) };
    if any_mentions(&arguments, variable) {
        let ghost asked = name;
        let renamed = rename(name);
        assert(renames(*rename, asked@, renamed@));
        proof {
            Expression::lemma_function_term(renamed, arguments);
        }
        let ghost to = renamed@;
        let derivative = Expression::Function { name: renamed, arguments };
        assert(renaming(*rename)(node->Function_name, to));
        derivative
    } else {
        Expression::Constant(ZERO)
    }
}

/// The derivative of a sine, by the chain rule.
fn derive_sine<F>(arg: Box<Expression>, variable: &String, rename: &F) -> (derivative:
    Expression) where F: Fn(String) -> String
    requires
        forall|name: String| call_requires(*rename, (name,)),
    ensures
        arg@.sine().derives_to(variable@, renaming(*rename), derivative@),
    decreases 1 + arg@.size(), 1nat,
{
    let cosine = (*arg).clone().cos();
    cosine * (*arg).differentiate(variable, rename)
}

/// The derivative of a cosine, by the chain rule.
fn derive_cosine<F>(arg: Box<Expression>, variable: &String, rename: &F) -> (derivative:
    Expression) where F: Fn(String) -> String
    requires
        forall|name: String| call_requires(*rename, (name,)),
    ensures
        arg@.cosine().derives_to(variable@, renaming(*rename), derivative@),
    decreases 1 + arg@.size(), 1nat,
{
    let sine = (*arg).clone().sin();
    sine.neg() * (*arg).differentiate(variable, rename)
}

/// The derivative of a binary operation vanishes where the derivatives of
/// both operands do.
proof fn lemma_binary_rule_vanishes(operator: BinaryOperator, u: Term, v: Term, du: Term, dv: Term)
    requires
        du.vanishes(),
        dv.vanishes(),
    ensures
        Term::binary_rule(operator, u, v, du, dv).vanishes(),
{
    reveal_with_fuel(Term::vanishes, 5);
}

/// The derivative of a binary operation is defined where both operands and
/// their derivatives are.
proof fn lemma_binary_rule_is_defined(
    operator: BinaryOperator,
    u: Term,
    v: Term,
    du: Term,
    dv: Term,
    symbols: Set<Seq<char>>,
    functions: Set<Seq<char>>,
)
    requires
        u.is_defined(symbols, functions),
        v.is_defined(symbols, functions),
        du.is_defined(symbols, functions),
        dv.is_defined(symbols, functions),
    ensures
        Term::binary_rule(operator, u, v, du, dv).is_defined(symbols, functions),
{
    reveal_with_fuel(Term::is_defined, 5);
}

/// A tree in which `variable` does not occur has a derivative that vanishes,
/// and that is defined under every binding under which the tree is: it
/// holds no symbol and no function that the tree does not hold.
pub proof fn lemma_derivative_without_variable(
    term: Term,
    variable: Seq<char>,
    naming: spec_fn(Seq<char>, Seq<char>) -> bool,
    derivative: Term,
    symbols: Set<Seq<char>>,
    functions: Set<Seq<char>>,
)
    requires
        !term.depends_on(variable),
        term.derives_to(variable, naming, derivative),
        term.is_defined(symbols, functions),
    ensures
        derivative.vanishes(),
        derivative.is_defined(symbols, functions),
    decreases term,
{
    match term {
        Term::Symbol(_) => {},
        Term::Constant(_) => {},
        Term::EulerNumber => {},
        Term::UnaryOperation { operand, operator } => {
            let du = choose|du: Term|
                operand.derives_to(variable, naming, du) && derivative == #[trigger] du.negated();
            lemma_derivative_without_variable(*operand, variable, naming, du, symbols, functions);
        },
        Term::BinaryOperation { first_operand, second_operand, operator } => {
            let (du, dv) = choose|du: Term, dv: Term|
                first_operand.derives_to(variable, naming, du) && second_operand.derives_to(
                    variable,
                    naming,
                    dv,
                ) && derivative == #[trigger] Term::binary_rule(
                    operator,
                    *first_operand,
                    *second_operand,
                    du,
                    dv,
                );
            lemma_derivative_without_variable(
                *first_operand,
                variable,
                naming,
                du,
                symbols,
                functions,
            );
            lemma_derivative_without_variable(
                *second_operand,
                variable,
                naming,
                dv,
                symbols,
                functions,
            );
            lemma_binary_rule_vanishes(operator, *first_operand, *second_operand, du, dv);
            lemma_binary_rule_is_defined(
                operator,
                *first_operand,
                *second_operand,
                du,
                dv,
                symbols,
                functions,
            );
        },
        Term::Function { .. } => {},
        Term::Sine(operand) => {
            let du = choose|du: Term|
                operand.derives_to(variable, naming, du) && derivative
                    == #[trigger] operand.cosine().times(du);
            lemma_derivative_without_variable(*operand, variable, naming, du, symbols, functions);
            reveal_with_fuel(Term::is_defined, 3);
        },
        Term::Cosine(operand) => {
            let du = choose|du: Term|
                operand.derives_to(variable, naming, du) && derivative
                    == #[trigger] operand.sine().negated().times(du);
            lemma_derivative_without_variable(*operand, variable, naming, du, symbols, functions);
            reveal_with_fuel(Term::is_defined, 4);
        },
    }
}

/// A tree has one derivative: where each function has one name for its
/// derivative only, two derivatives of a tree with respect to the same
/// variable are the same tree.
pub proof fn lemma_derivative_is_determined(
    term: Term,
    variable: Seq<char>,
    naming: spec_fn(Seq<char>, Seq<char>) -> bool,
    first: Term,
    second: Term,
)
    requires
        term.derives_to(variable, naming, first),
        term.derives_to(variable, naming, second),
        forall|name: Seq<char>, a: Seq<char>, b: Seq<char>|
            #[trigger] naming(name, a) && #[trigger] naming(name, b) ==> a == b,
    ensures
        first == second,
    decreases term,
{
    match term {
        Term::Symbol(_) => {},
        Term::Constant(_) => {},
        Term::EulerNumber => {},
        Term::UnaryOperation { operand, .. } => {
            let a = choose|du: Term|
                operand.derives_to(variable, naming, du) && first == #[trigger] du.negated();
            let b = choose|du: Term|
                operand.derives_to(variable, naming, du) && second == #[trigger] du.negated();
            lemma_derivative_is_determined(*operand, variable, naming, a, b);
        },
        Term::BinaryOperation { first_operand, second_operand, operator } => {
            let (a1, a2) = choose|du: Term, dv: Term|
                first_operand.derives_to(variable, naming, du) && second_operand.derives_to(
                    variable,
                    naming,
                    dv,
                ) && first == #[trigger] Term::binary_rule(
                    operator,
                    *first_operand,
                    *second_operand,
                    du,
                    dv,
                );
            let (b1, b2) = choose|du: Term, dv: Term|
                first_operand.derives_to(variable, naming, du) && second_operand.derives_to(
                    variable,
                    naming,
                    dv,
                ) && second == #[trigger] Term::binary_rule(
                    operator,
                    *first_operand,
                    *second_operand,
                    du,
                    dv,
                );
            lemma_derivative_is_determined(*first_operand, variable, naming, a1, b1);
            lemma_derivative_is_determined(*second_operand, variable, naming, a2, b2);
        },
        Term::Function { .. } => {},
        Term::Sine(operand) => {
            let a = choose|du: Term|
                operand.derives_to(variable, naming, du) && first
                    == #[trigger] operand.cosine().times(du);
            let b = choose|du: Term|
                operand.derives_to(variable, naming, du) && second
                    == #[trigger] operand.cosine().times(du);
            lemma_derivative_is_determined(*operand, variable, naming, a, b);
        },
        Term::Cosine(operand) => {
            let a = choose|du: Term|
                operand.derives_to(variable, naming, du) && first
                    == #[trigger] operand.sine().negated().times(du);
            let b = choose|du: Term|
                operand.derives_to(variable, naming, du) && second
                    == #[trigger] operand.sine().negated().times(du);
            lemma_derivative_is_determined(*operand, variable, naming, a, b);
        },
    }
}

} // verus!
