//! The mathematical model of an expression tree.
use vstd::prelude::*;

use crate::{BinaryOperator, UnaryOperator};

verus! {

/// What an [`crate::Expression`] stands for: the same tree, with names as
/// sequences of characters and argument lists as sequences of trees.
#[allow(inconsistent_fields)]
pub enum Term {
    Symbol(Seq<char>),
    Constant(u64),
    EulerNumber,
    UnaryOperation { operand: Box<Term>, operator: UnaryOperator },
    BinaryOperation { first_operand: Box<Term>, second_operand: Box<Term>, operator: BinaryOperator },
    Function { name: Seq<char>, arguments: Seq<Term> },
    Sine(Box<Term>),
    Cosine(Box<Term>),
}

impl Term {
    /// The operation `operator` on `self` and `second`.
    pub open spec fn binary(self, operator: BinaryOperator, second: Term) -> Term {
        Term::BinaryOperation {
            first_operand: Box::new(self),
            second_operand: Box::new(second),
            operator,
        }
    }

    /// The negation of `self`.
    pub open spec fn negated(self) -> Term {
        Term::UnaryOperation { operand: Box::new(self), operator: UnaryOperator::Negation }
    }

    /// The sum of `self` and `second`.
    pub open spec fn plus(self, second: Term) -> Term {
        self.binary(BinaryOperator::Addition, second)
    }

    /// The difference of `self` and `second`.
    pub open spec fn minus(self, second: Term) -> Term {
        self.binary(BinaryOperator::Subtraction, second)
    }

    /// The product of `self` and `second`.
    pub open spec fn times(self, second: Term) -> Term {
        self.binary(BinaryOperator::Multiplication, second)
    }

    /// The quotient of `self` by `second`.
    pub open spec fn over(self, second: Term) -> Term {
        self.binary(BinaryOperator::Division, second)
    }

    /// `self` raised to `exponent`.
    pub open spec fn power(self, exponent: Term) -> Term {
        self.binary(BinaryOperator::Power, exponent)
    }

    /// The logarithm of `argument` in base `self`.
    pub open spec fn logarithm(self, argument: Term) -> Term {
        self.binary(BinaryOperator::Logarithm, argument)
    }

    /// The natural logarithm of `self`: its logarithm in base e.
    pub open spec fn ln(self) -> Term {
        Term::EulerNumber.logarithm(self)
    }

    /// The sine of `self`.
    pub open spec fn sine(self) -> Term {
        Term::Sine(Box::new(self))
    }

    /// The cosine of `self`.
    pub open spec fn cosine(self) -> Term {
        Term::Cosine(Box::new(self))
    }

    /// The number of nodes of the tree.
    pub open spec fn size(self) -> nat
        decreases self,
    {
        match self {
            Term::Symbol(_) => 1,
            Term::Constant(_) => 1,
            Term::EulerNumber => 1,
            Term::UnaryOperation { operand, .. } => 1 + operand.size(),
            Term::BinaryOperation { first_operand, second_operand, .. } => 1 + first_operand.size()
                + second_operand.size(),
            Term::Function { arguments, .. } => 1 + Term::total_size(arguments),
            Term::Sine(operand) => 1 + operand.size(),
            Term::Cosine(operand) => 1 + operand.size(),
        }
    }

    /// The number of nodes of all the trees of a sequence together.
    pub open spec fn total_size(terms: Seq<Term>) -> nat
        decreases terms,
    {
        if terms.len() == 0 {
            0
        } else {
            Term::total_size(terms.drop_last()) + terms.last().size()
        }
    }

    /// Each tree of a sequence is smaller than a node that holds the sequence.
    pub proof fn lemma_element_size(terms: Seq<Term>, i: int)
        requires
            0 <= i < terms.len(),
        ensures
            terms[i].size() <= Term::total_size(terms),
        decreases terms.len(),
    {
        if i < terms.len() - 1 {
            Term::lemma_element_size(terms.drop_last(), i);
        }
    }

    /// Whether the symbol `variable` occurs anywhere in the tree.
    pub open spec fn depends_on(self, variable: Seq<char>) -> bool
        decreases self,
    {
        match self {
            Term::Symbol(name) => name == variable,
            Term::Constant(_) => false,
            Term::EulerNumber => false,
            Term::UnaryOperation { operand, .. } => operand.depends_on(variable),
            Term::BinaryOperation { first_operand, second_operand, .. } => first_operand.depends_on(
                variable,
            ) || second_operand.depends_on(variable),
            Term::Function { arguments, .. } => Term::any_depends_on(arguments, variable),
            Term::Sine(operand) => operand.depends_on(variable),
            Term::Cosine(operand) => operand.depends_on(variable),
        }
    }

    /// Whether the symbol `variable` occurs in one of the trees of a sequence.
    pub open spec fn any_depends_on(terms: Seq<Term>, variable: Seq<char>) -> bool
        decreases terms,
    {
        exists|i: int| 0 <= i < terms.len() && (#[trigger] terms[i]).depends_on(variable)
    }
}

} // verus!
