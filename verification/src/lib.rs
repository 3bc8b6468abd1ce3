//! A symbolic-algebra kernel: mathematical expressions as owned trees, with
//! structural differentiation, numeric evaluation, predicate-driven rewriting
//! and emission of C source text.
//!
//! The verified code holds no floating-point value. A constant is carried as
//! the IEEE-754 binary64 bit pattern of its value, and whoever evaluates or
//! prints a tree supplies the numeric primitives as closures over such bit
//! patterns. Every contract is stated over [`term::Term`], the mathematical
//! model of a tree, reached from an [`Expression`] by `@`.
use vstd::prelude::*;

pub mod code_gen;
pub mod derivative;
pub mod eval;
pub mod term;
pub mod transform;
pub mod zero;

use crate::term::Term;

verus! {

/// Bit pattern of the constant `0.0`.
pub const ZERO: u64 = 0x0000_0000_0000_0000;

/// Bit pattern of `-0.0`.
pub const NEGATIVE_ZERO: u64 = 0x8000_0000_0000_0000;

/// Bit pattern of the constant `1.0`.
pub const ONE: u64 = 0x3FF0_0000_0000_0000;

/// Bit pattern of the constant `2.0`.
pub const TWO: u64 = 0x4000_0000_0000_0000;

/// Bit pattern of `2.71828182845904523536`, the value of [`Expression::EulerNumber`].
pub const EULER: u64 = 0x4005_BF0A_8B14_5769;

/// The operations on one operand.
#[derive(Clone, Copy, Debug, PartialEq, Eq)]
pub enum UnaryOperator {
    Negation,
}

/// The operations on two operands.
#[derive(Clone, Copy, Debug, PartialEq, Eq)]
pub enum BinaryOperator {
    Addition,
    Subtraction,
    Multiplication,
    Division,
    Power,
    Logarithm,
}

/// An expression tree. Every node owns its children; no subtree is shared.
#[derive(Debug)]
#[allow(inconsistent_fields)]
pub enum Expression {
    /// A free variable, resolved by name when the tree is evaluated.
    Symbol(String),
    /// A literal value, as its IEEE-754 binary64 bit pattern.
    Constant(u64),
    /// The constant e, kept apart from `Constant` so that it can be recognised structurally.
    EulerNumber,
    /// An operation on one operand.
    UnaryOperation { operand: Box<Expression>, operator: UnaryOperator },
    /// An operation on two operands.
    /// For `Logarithm`, `first_operand` is the base and `second_operand` the argument;
    /// for `Power`, `first_operand` is the base and `second_operand` the exponent.
    BinaryOperation {
        first_operand: Box<Expression>,
        second_operand: Box<Expression>,
        operator: BinaryOperator,
    },
    /// An uninterpreted function applied to its arguments, in order.
    Function { name: String, arguments: Vec<Expression> },
    /// The sine of the operand.
    Sine(Box<Expression>),
    /// The cosine of the operand.
    Cosine(Box<Expression>),
}

impl Expression {
    /// The mathematical tree that this expression stands for.
    pub open spec fn term(self) -> Term
        decreases self,
    {
        match self {
            Expression::Symbol(name) => Term::Symbol(name@),
            Expression::Constant(bits) => Term::Constant(bits),
            Expression::EulerNumber => Term::EulerNumber,
            Expression::UnaryOperation { operand, operator } => Term::UnaryOperation {
                operand: Box::new(operand.term()),
                operator,
            },
            Expression::BinaryOperation { first_operand, second_operand, operator } => {
                Term::BinaryOperation {
                    first_operand: Box::new(first_operand.term()),
                    second_operand: Box::new(second_operand.term()),
                    operator,
                }
            },
            Expression::Function { name, arguments } => Term::Function {
                name: name@,
                arguments: Seq::new(
                    arguments.len() as nat,
                    |i: int|
                        if 0 <= i < arguments.len() {
                            arguments[i].term()
                        } else {
                            Term::EulerNumber
                        },
                ),
            },
            Expression::Sine(operand) => Term::Sine(Box::new(operand.term())),
            Expression::Cosine(operand) => Term::Cosine(Box::new(operand.term())),
        }
    }

    /// The models of a sequence of expressions, element by element.
    pub open spec fn terms(expressions: Seq<Expression>) -> Seq<Term> {
        Seq::new(expressions.len(), |i: int| expressions[i].term())
    }

    /// The arguments of a `Function` node are modelled element by element.
    pub proof fn lemma_function_term(name: String, arguments: Vec<Expression>)
        ensures
            (Expression::Function { name, arguments })@ == (Term::Function {
                name: name@,
                arguments: Expression::terms(arguments@),
            }),
    {
        let node = Expression::Function { name, arguments };
        assert(node@->Function_arguments =~= Expression::terms(arguments@));
    }

    /// `self` raised to `exponent`.
    pub fn pow(self, exponent: Self) -> (power: Self)
        ensures
            power@ == self@.power(exponent@),
    {
        Expression::BinaryOperation {
            first_operand: Box::new(self),
            second_operand: Box::new(exponent),
            operator: BinaryOperator::Power,
        }
    }

    /// The logarithm of `argument` in base `self`.
    pub fn log(self, argument: Self) -> (logarithm: Self)
        ensures
            logarithm@ == self@.logarithm(argument@),
    {
        Expression::BinaryOperation {
            first_operand: Box::new(self),
            second_operand: Box::new(argument),
            operator: BinaryOperator::Logarithm,
        }
    }

    /// The natural logarithm of `argument`: its logarithm in base e.
    pub fn ln(argument: Self) -> (logarithm: Self)
        ensures
            logarithm@ == argument@.ln(),
    {
        Expression::EulerNumber.log(argument)
    }

    /// The sine of `self`.
    pub fn sin(self) -> (sine: Self)
        ensures
            sine@ == self@.sine(),
    {
        Expression::Sine(Box::new(self))
    }

    /// The cosine of `self`.
    pub fn cos(self) -> (cosine: Self)
        ensures
            cosine@ == self@.cosine(),
    {
        Expression::Cosine(Box::new(self))
    }

    /// The square root, written as `self` raised to `1.0 / 2.0`.
    pub fn sqrt(self) -> (root: Self)
        ensures
            root@ == self@.power(Term::Constant(ONE).over(Term::Constant(TWO))),
    {
        let one = Expression::Constant(ONE);
        let two = Expression::Constant(TWO);
        self.pow(one / two)
    }
}

impl View for Expression {
    type V = Term;

    open spec fn view(&self) -> Term {
        self.term()
    }
}

impl Clone for Expression {
    /// A deep copy: a fresh tree with the same model.
    fn clone(&self) -> (copy: Self)
        ensures
            copy@ == self@,
        decreases self,
    {
        match self {
            Expression::Symbol(name) => Expression::Symbol(name.clone()),
            Expression::Constant(bits) => Expression::Constant(*bits),
            Expression::EulerNumber => Expression::EulerNumber,
            Expression::UnaryOperation { operand, operator } => Expression::UnaryOperation {
                operand: Box::new((&**operand).clone()),
                operator: *operator,
            },
            Expression::BinaryOperation { first_operand, second_operand, operator } => {
                Expression::BinaryOperation {
                    first_operand: Box::new((&**first_operand).clone()),
                    second_operand: Box::new((&**second_operand).clone()),
                    operator: *operator,
                }
            },
            Expression::Function { name, arguments } => {
                let mut copies: Vec<Expression> = Vec::new();
                let mut i: usize = 0;
                while i < arguments.len()
                    invariant
                        i <= arguments.len(),
                        copies.len() == i,
                        decreases_to!(self => arguments),
                        forall|k: int| 0 <= k < i ==> copies[k]@ == arguments[k]@,
                    decreases arguments.len() - i,
                {
                    copies.push(arguments[i].clone());
                    i += 1;
                }
                let copy = Expression::Function { name: name.clone(), arguments: copies };
                assert(copy@->Function_arguments =~= self@->Function_arguments);
                copy
            },
            Expression::Sine(operand) => Expression::Sine(Box::new((&**operand).clone())),
            Expression::Cosine(operand) => Expression::Cosine(Box::new((&**operand).clone())),
        }
    }
}

impl core::ops::Neg for Expression {
    type Output = Expression;

    /// The negation of `self`.
    fn neg(self) -> (negation: Expression)
        ensures
            negation@ == self@.negated(),
    {
        Expression::UnaryOperation { operand: Box::new(self), operator: UnaryOperator::Negation }
    }
}

impl vstd::std_specs::ops::NegSpecImpl for Expression {
    open spec fn obeys_neg_spec() -> bool {
        true
    }

    open spec fn neg_req(self) -> bool {
        true
    }

    open spec fn neg_spec(self) -> Expression {
        Expression::UnaryOperation { operand: Box::new(self), operator: UnaryOperator::Negation }
    }
}

impl core::ops::Add for Expression {
    type Output = Expression;

    /// The sum of `self` and `rhs`. Nothing is simplified: a sum with zero
    /// is a sum.
    fn add(self, rhs: Self) -> (sum: Expression)
        ensures
            sum@ == self@.plus(rhs@),
    {
        Expression::BinaryOperation {
            first_operand: Box::new(self),
            second_operand: Box::new(rhs),
            operator: BinaryOperator::Addition,
        }
    }
}

impl vstd::std_specs::ops::AddSpecImpl for Expression {
    open spec fn obeys_add_spec() -> bool {
        true
    }

    open spec fn add_req(self, rhs: Self) -> bool {
        true
    }

    open spec fn add_spec(self, rhs: Self) -> Expression {
        Expression::BinaryOperation {
            first_operand: Box::new(self),
            second_operand: Box::new(rhs),
            operator: BinaryOperator::Addition,
        }
    }
}

impl core::ops::Sub for Expression {
    type Output = Expression;

    /// The difference of `self` and `rhs`.
    fn sub(self, rhs: Self) -> (difference: Expression)
        ensures
            difference@ == self@.minus(rhs@),
    {
        Expression::BinaryOperation {
            first_operand: Box::new(self),
            second_operand: Box::new(rhs),
            operator: BinaryOperator::Subtraction,
        }
    }
}

impl vstd::std_specs::ops::SubSpecImpl for Expression {
    open spec fn obeys_sub_spec() -> bool {
        true
    }

    open spec fn sub_req(self, rhs: Self) -> bool {
        true
    }

    open spec fn sub_spec(self, rhs: Self) -> Expression {
        Expression::BinaryOperation {
            first_operand: Box::new(self),
            second_operand: Box::new(rhs),
            operator: BinaryOperator::Subtraction,
        }
    }
}

impl core::ops::Mul for Expression {
    type Output = Expression;

    /// The product of `self` and `rhs`.
    fn mul(self, rhs: Self) -> (product: Expression)
        ensures
            product@ == self@.times(rhs@),
    {
        Expression::BinaryOperation {
            first_operand: Box::new(self),
            second_operand: Box::new(rhs),
            operator: BinaryOperator::Multiplication,
        }
    }
}

impl vstd::std_specs::ops::MulSpecImpl for Expression {
    open spec fn obeys_mul_spec() -> bool {
        true
    }

    open spec fn mul_req(self, rhs: Self) -> bool {
        true
    }

    open spec fn mul_spec(self, rhs: Self) -> Expression {
        Expression::BinaryOperation {
            first_operand: Box::new(self),
            second_operand: Box::new(rhs),
            operator: BinaryOperator::Multiplication,
        }
    }
}

impl core::ops::Div for Expression {
    type Output = Expression;

    /// The quotient of `self` by `rhs`. The divisor is not looked at: a
    /// quotient by zero is built as any other.
    fn div(self, rhs: Self) -> (quotient: Expression)
        ensures
            quotient@ == self@.over(rhs@),
    {
        Expression::BinaryOperation {
            first_operand: Box::new(self),
            second_operand: Box::new(rhs),
            operator: BinaryOperator::Division,
        }
    }
}

impl vstd::std_specs::ops::DivSpecImpl for Expression {
    open spec fn obeys_div_spec() -> bool {
        true
    }

    open spec fn div_req(self, rhs: Self) -> bool {
        true
    }

    open spec fn div_spec(self, rhs: Self) -> Expression {
        Expression::BinaryOperation {
            first_operand: Box::new(self),
            second_operand: Box::new(rhs),
            operator: BinaryOperator::Division,
        }
    }
}

} // verus!
