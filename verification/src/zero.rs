//! Trees that are zero by their shape, what they evaluate to, and the
//! derivative of a tree with respect to a variable that it does not hold.
use vstd::prelude::*;

use crate::eval::Operation;
use crate::term::Term;
use crate::{BinaryOperator, NEGATIVE_ZERO, ZERO};

verus! {

/// The exponent bits of a bit pattern: all set in an infinity and in a NaN.
pub const EXPONENT: u64 = 0x7FF0_0000_0000_0000;

/// The fraction bits of a bit pattern.
pub const FRACTION: u64 = 0x000F_FFFF_FFFF_FFFF;

/// What [`is_zero`] computes.
pub open spec fn spec_is_zero(bits: u64) -> bool {
    bits == ZERO || bits == NEGATIVE_ZERO
}

/// What [`is_finite`] computes.
pub open spec fn spec_is_finite(bits: u64) -> bool {
    bits & EXPONENT != EXPONENT
}

/// What [`is_number`] computes.
pub open spec fn spec_is_number(bits: u64) -> bool {
    bits & EXPONENT != EXPONENT || bits & FRACTION == 0
}

/// Whether `bits` is the bit pattern of a zero, of either sign.
#[verifier::when_used_as_spec(spec_is_zero)]
pub fn is_zero(bits: u64) -> (zero: bool)
    ensures
        zero == spec_is_zero(bits),
{
    bits == ZERO || bits == NEGATIVE_ZERO
}

/// Whether `bits` is the bit pattern of a finite number: of neither an
/// infinity nor a NaN.
#[verifier::when_used_as_spec(spec_is_finite)]
pub fn is_finite(bits: u64) -> (finite: bool)
    ensures
        finite == spec_is_finite(bits),
{
    bits & EXPONENT != EXPONENT
}

/// Whether `bits` is the bit pattern of a number, finite or infinite: not of
/// a NaN, whose exponent bits are all set and whose fraction bits are not all
/// clear.
#[verifier::when_used_as_spec(spec_is_number)]
pub fn is_number(bits: u64) -> (number: bool)
    ensures
        number == spec_is_number(bits),
{
    bits & EXPONENT != EXPONENT || bits & FRACTION == 0
}

/// Whether the arithmetic keeps zero as IEEE-754 arithmetic does: the
/// negation of a zero, the sum and the difference of two zeros, the product
/// of a zero and a finite number, and the quotient of a zero by a number
/// other than zero are zeros.
pub open spec fn keeps_zero(computes: spec_fn(Operation, u64) -> bool) -> bool {
    &&& forall|z: u64, value: u64|
        is_zero(z) && #[trigger] computes(Operation::Negation(z), value) ==> is_zero(value)
    &&& forall|a: u64, b: u64, value: u64|
        is_zero(a) && is_zero(b) && #[trigger] computes(
            Operation::Binary(BinaryOperator::Addition, a, b),
            value,
        ) ==> is_zero(value)
    &&& forall|a: u64, b: u64, value: u64|
        is_zero(a) && is_zero(b) && #[trigger] computes(
            Operation::Binary(BinaryOperator::Subtraction, a, b),
            value,
        ) ==> is_zero(value)
    &&& forall|z: u64, x: u64, value: u64|
        is_zero(z) && is_finite(x) && #[trigger] computes(
            Operation::Binary(BinaryOperator::Multiplication, z, x),
            value,
        ) ==> is_zero(value)
    &&& forall|x: u64, z: u64, value: u64|
        is_finite(x) && is_zero(z) && #[trigger] computes(
            Operation::Binary(BinaryOperator::Multiplication, x, z),
            value,
        ) ==> is_zero(value)
    &&& forall|z: u64, x: u64, value: u64|
        is_zero(z) && is_number(x) && !is_zero(x) && #[trigger] computes(
            Operation::Binary(BinaryOperator::Division, z, x),
            value,
        ) ==> is_zero(value)
}

impl Term {
    /// Whether the tree is zero by the laws `0 + 0 = 0`, `0 - 0 = 0`,
    /// `-0 = 0`, `0 * x = x * 0 = 0` and `0 / x = 0` alone.
    pub open spec fn vanishes(self) -> bool
        decreases self,
    {
        match self {
            Term::Constant(bits) => bits == ZERO,
            Term::UnaryOperation { operand, .. } => operand.vanishes(),
            Term::BinaryOperation { first_operand, second_operand, operator } => match operator {
                BinaryOperator::Addition => first_operand.vanishes() && second_operand.vanishes(),
                BinaryOperator::Subtraction => first_operand.vanishes()
                    && second_operand.vanishes(),
                BinaryOperator::Multiplication => first_operand.vanishes()
                    || second_operand.vanishes(),
                BinaryOperator::Division => first_operand.vanishes(),
                BinaryOperator::Power => false,
                BinaryOperator::Logarithm => false,
            },
            _ => false,
        }
    }

    /// Whether every value of the tree is finite.
    pub open spec fn is_finite_under(
        self,
        values: Map<Seq<char>, u64>,
        calls: spec_fn(Seq<char>, Seq<u64>, u64) -> bool,
        computes: spec_fn(Operation, u64) -> bool,
    ) -> bool {
        forall|x: u64| #[trigger] self.evaluates_to(values, calls, computes, x) ==> is_finite(x)
    }

    /// Whether every value of the tree is a number other than zero.
    pub open spec fn is_divisor_under(
        self,
        values: Map<Seq<char>, u64>,
        calls: spec_fn(Seq<char>, Seq<u64>, u64) -> bool,
        computes: spec_fn(Operation, u64) -> bool,
    ) -> bool {
        forall|x: u64| #[trigger]
            self.evaluates_to(values, calls, computes, x) ==> is_number(x) && !is_zero(x)
    }

    /// Whether the tree vanishes with every law applied within its reach: a
    /// factor beside a vanishing factor has finite values only, and a divisor
    /// under a vanishing dividend has no values but numbers other than zero.
    pub open spec fn vanishes_under(
        self,
        values: Map<Seq<char>, u64>,
        calls: spec_fn(Seq<char>, Seq<u64>, u64) -> bool,
        computes: spec_fn(Operation, u64) -> bool,
    ) -> bool
        decreases self,
    {
        match self {
            Term::Constant(bits) => bits == ZERO,
            Term::UnaryOperation { operand, .. } => operand.vanishes_under(values, calls, computes),
            Term::BinaryOperation { first_operand, second_operand, operator } => match operator {
                BinaryOperator::Addition => first_operand.vanishes_under(values, calls, computes)
                    && second_operand.vanishes_under(values, calls, computes),
                BinaryOperator::Subtraction => first_operand.vanishes_under(
                    values,
                    calls,
                    computes,
                ) && second_operand.vanishes_under(values, calls, computes),
                BinaryOperator::Multiplication => {
                    ||| first_operand.vanishes_under(values, calls, computes)
                        && second_operand.is_finite_under(values, calls, computes)
                    ||| second_operand.vanishes_under(values, calls, computes)
                        && first_operand.is_finite_under(values, calls, computes)
                },
                BinaryOperator::Division => first_operand.vanishes_under(values, calls, computes)
                    && second_operand.is_divisor_under(values, calls, computes),
                BinaryOperator::Power => false,
                BinaryOperator::Logarithm => false,
            },
            _ => false,
        }
    }

    /// Whether the derivative of a binary operation on `u` and `v` multiplies
    /// by finite factors only and divides by numbers other than zero only.
    pub open spec fn rule_is_regular(
        operator: BinaryOperator,
        u: Term,
        v: Term,
        values: Map<Seq<char>, u64>,
        calls: spec_fn(Seq<char>, Seq<u64>, u64) -> bool,
        computes: spec_fn(Operation, u64) -> bool,
    ) -> bool {
        match operator {
            BinaryOperator::Addition => true,
            BinaryOperator::Subtraction => true,
            BinaryOperator::Multiplication => {
                &&& u.is_finite_under(values, calls, computes)
                &&& v.is_finite_under(values, calls, computes)
            },
            BinaryOperator::Division => {
                &&& u.is_finite_under(values, calls, computes)
                &&& v.is_finite_under(values, calls, computes)
                &&& v.times(v).is_divisor_under(values, calls, computes)
            },
            BinaryOperator::Power => {
                &&& v.is_finite_under(values, calls, computes)
                &&& u.is_divisor_under(values, calls, computes)
                &&& u.ln().is_finite_under(values, calls, computes)
                &&& u.power(v).is_finite_under(values, calls, computes)
            },
            BinaryOperator::Logarithm => {
                &&& u.is_divisor_under(values, calls, computes)
                &&& v.is_divisor_under(values, calls, computes)
                &&& u.ln().is_finite_under(values, calls, computes)
                &&& v.ln().is_finite_under(values, calls, computes)
                &&& u.ln().times(u.ln()).is_divisor_under(values, calls, computes)
            },
        }
    }

    /// Whether the derivative of the tree, taken with respect to a variable
    /// that the tree does not hold, multiplies by finite factors only and
    /// divides by numbers other than zero only.
    pub open spec fn differentiates_regularly(
        self,
        values: Map<Seq<char>, u64>,
        calls: spec_fn(Seq<char>, Seq<u64>, u64) -> bool,
        computes: spec_fn(Operation, u64) -> bool,
    ) -> bool
        decreases self,
    {
        match self {
            Term::UnaryOperation { operand, .. } => operand.differentiates_regularly(
                values,
                calls,
                computes,
            ),
            Term::BinaryOperation { first_operand, second_operand, operator } => {
                &&& first_operand.differentiates_regularly(values, calls, computes)
                &&& second_operand.differentiates_regularly(values, calls, computes)
                &&& Term::rule_is_regular(
                    operator,
                    *first_operand,
                    *second_operand,
                    values,
                    calls,
                    computes,
                )
            },
            Term::Sine(operand) => {
                &&& operand.differentiates_regularly(values, calls, computes)
                &&& operand.cosine().is_finite_under(values, calls, computes)
            },
            Term::Cosine(operand) => {
                &&& operand.differentiates_regularly(values, calls, computes)
                &&& operand.sine().negated().is_finite_under(values, calls, computes)
            },
            _ => true,
        }
    }
}

/// A tree that vanishes with every law applied within its reach vanishes by
/// its shape.
pub proof fn lemma_vanishes_by_shape(
    term: Term,
    values: Map<Seq<char>, u64>,
    calls: spec_fn(Seq<char>, Seq<u64>, u64) -> bool,
    computes: spec_fn(Operation, u64) -> bool,
)
    requires
        term.vanishes_under(values, calls, computes),
    ensures
        term.vanishes(),
    decreases term,
{
    match term {
        Term::UnaryOperation { operand, .. } => {
            lemma_vanishes_by_shape(*operand, values, calls, computes);
        },
        Term::BinaryOperation { first_operand, second_operand, operator } => {
            if first_operand.vanishes_under(values, calls, computes) {
                lemma_vanishes_by_shape(*first_operand, values, calls, computes);
            }
            if second_operand.vanishes_under(values, calls, computes) {
                lemma_vanishes_by_shape(*second_operand, values, calls, computes);
            }
        },
        _ => {},
    }
}

/// A tree that vanishes with every law applied within its reach has no value
/// but zero, under an arithmetic that keeps zero.
pub proof fn lemma_vanishing_tree_is_zero(
    term: Term,
    values: Map<Seq<char>, u64>,
    calls: spec_fn(Seq<char>, Seq<u64>, u64) -> bool,
    computes: spec_fn(Operation, u64) -> bool,
    value: u64,
)
    requires
        term.vanishes_under(values, calls, computes),
        keeps_zero(computes),
        term.evaluates_to(values, calls, computes, value),
    ensures
        is_zero(value),
    decreases term,
{
    match term {
        Term::UnaryOperation { operand, .. } => {
            let x = choose|x: u64|
                operand.evaluates_to(values, calls, computes, x) && #[trigger] computes(
                    Operation::Negation(x),
                    value,
                );
            lemma_vanishing_tree_is_zero(*operand, values, calls, computes, x);
        },
        Term::BinaryOperation { first_operand, second_operand, operator } => {
            let (a, b) = choose|a: u64, b: u64|
                first_operand.evaluates_to(values, calls, computes, a)
                    && second_operand.evaluates_to(values, calls, computes, b)
                    && #[trigger] computes(Operation::Binary(operator, a, b), value);
            if first_operand.vanishes_under(values, calls, computes) {
                lemma_vanishing_tree_is_zero(*first_operand, values, calls, computes, a);
            }
            if second_operand.vanishes_under(values, calls, computes) {
                lemma_vanishing_tree_is_zero(*second_operand, values, calls, computes, b);
            }
        },
        _ => {},
    }
}

/// The derivative of a binary operation vanishes with every law applied
/// within its reach where the derivatives of both operands do and the rule
/// is regular.
proof fn lemma_binary_rule_vanishes_under(
    operator: BinaryOperator,
    u: Term,
    v: Term,
    du: Term,
    dv: Term,
    values: Map<Seq<char>, u64>,
    calls: spec_fn(Seq<char>, Seq<u64>, u64) -> bool,
    computes: spec_fn(Operation, u64) -> bool,
)
    requires
        du.vanishes_under(values, calls, computes),
        dv.vanishes_under(values, calls, computes),
        Term::rule_is_regular(operator, u, v, values, calls, computes),
    ensures
        Term::binary_rule(operator, u, v, du, dv).vanishes_under(values, calls, computes),
{
    reveal_with_fuel(Term::vanishes_under, 5);
}

/// The derivative of a tree with respect to a variable that the tree does
/// not hold vanishes with every law applied within its reach, where the
/// tree differentiates regularly.
pub proof fn lemma_derivative_without_variable_vanishes(
    term: Term,
    variable: Seq<char>,
    naming: spec_fn(Seq<char>, Seq<char>) -> bool,
    derivative: Term,
    values: Map<Seq<char>, u64>,
    calls: spec_fn(Seq<char>, Seq<u64>, u64) -> bool,
    computes: spec_fn(Operation, u64) -> bool,
)
    requires
        !term.depends_on(variable),
        term.derives_to(variable, naming, derivative),
        term.differentiates_regularly(values, calls, computes),
    ensures
        derivative.vanishes_under(values, calls, computes),
    decreases term,
{
    match term {
        Term::Symbol(_) => {},
        Term::Constant(_) => {},
        Term::EulerNumber => {},
        Term::UnaryOperation { operand, .. } => {
            let du = choose|du: Term|
                operand.derives_to(variable, naming, du) && derivative == #[trigger] du.negated();
            lemma_derivative_without_variable_vanishes(
                *operand,
                variable,
                naming,
                du,
                values,
                calls,
                computes,
            );
        },
        Term::BinaryOperation { first_operand, second_operand, operator } => {
            let (du, dv) = choose|du: Term, dv: Term|
                first_operand.derives_to(variable, naming, du) && second_operand.derives_to(
                    variable,
                    naming,
                    dv,
                ) && derivative == #[trigger] Term::binary_rule(
                    operator,
                    *first_operand,
                    *second_operand,
                    du,
                    dv,
                );
            lemma_derivative_without_variable_vanishes(
                *first_operand,
                variable,
                naming,
                du,
                values,
                calls,
                computes,
            );
            lemma_derivative_without_variable_vanishes(
                *second_operand,
                variable,
                naming,
                dv,
                values,
                calls,
                computes,
            );
            lemma_binary_rule_vanishes_under(
                operator,
                *first_operand,
                *second_operand,
                du,
                dv,
                values,
                calls,
                computes,
            );
        },
        Term::Function { .. } => {},
        Term::Sine(operand) => {
            let du = choose|du: Term|
                operand.derives_to(variable, naming, du) && derivative
                    == #[trigger] operand.cosine().times(du);
            lemma_derivative_without_variable_vanishes(
                *operand,
                variable,
                naming,
                du,
                values,
                calls,
                computes,
            );
        },
        Term::Cosine(operand) => {
            let du = choose|du: Term|
                operand.derives_to(variable, naming, du) && derivative
                    == #[trigger] operand.sine().negated().times(du);
            lemma_derivative_without_variable_vanishes(
                *operand,
                variable,
                naming,
                du,
                values,
                calls,
                computes,
            );
        },
    }
}

/// The derivative of a tree with respect to a variable that the tree does
/// not hold has no value but zero, whatever the renaming rule, where the
/// tree differentiates regularly and the arithmetic keeps zero.
pub proof fn lemma_derivative_without_variable_is_zero(
    term: Term,
    variable: Seq<char>,
    naming: spec_fn(Seq<char>, Seq<char>) -> bool,
    derivative: Term,
    values: Map<Seq<char>, u64>,
    calls: spec_fn(Seq<char>, Seq<u64>, u64) -> bool,
    computes: spec_fn(Operation, u64) -> bool,
    value: u64,
)
    requires
        !term.depends_on(variable),
        term.derives_to(variable, naming, derivative),
        term.differentiates_regularly(values, calls, computes),
        keeps_zero(computes),
        derivative.evaluates_to(values, calls, computes, value),
    ensures
        is_zero(value),
{
    lemma_derivative_without_variable_vanishes(
        term,
        variable,
        naming,
        derivative,
        values,
        calls,
        computes,
    );
    lemma_vanishing_tree_is_zero(derivative, values, calls, computes, value);
}

} // verus!
