//! Evaluation of an expression under given values of its variables.

use vstd::arithmetic::power2::pow2;
use vstd::prelude::*;

use crate::expression::{BinaryOperator, Expression};
use crate::kind::{
    classify, greatest, in_range, is_supported_width, least, lemma_ranges, max_value, min_value,
    same_text, supported_width, wrap,
};
use crate::semantics::{
    apply, assigned, eval, holds, lemma_eval_in_range, lemma_wrap_near, Assignment, Value,
};

verus! {

/// A value as the evaluator holds it.
#[derive(Clone, Copy, Debug, PartialEq, Eq)]
pub enum Computed {
    Truth(bool),
    Bits { signed: bool, width: u8, value: i128 },
}

impl View for Computed {
    type V = Value;

    open spec fn view(&self) -> Value {
        match *self {
            Computed::Truth(truth) => Value::Truth(truth),
            Computed::Bits { signed, width, value } => Value::Bits {
                signed,
                width: width as nat,
                value: value as int,
            },
        }
    }
}

impl Computed {
    /// An integer value has a supported width and lies in its range.
    pub open spec fn well_formed(self) -> bool {
        self matches Computed::Bits { signed, width, value } ==> supported_width(width as nat)
            && in_range(signed, width as nat, value as int)
    }
}

/// The value that a computed value stands for, where there is one.
pub open spec fn computed(value: Option<Computed>) -> Option<Value> {
    match value {
        Some(value) => Some(value@),
        None => None,
    }
}

/// The value given to one variable.
struct Binding {
    name: String,
    value: i128,
}

/// The values given to variables. A later binding of a name replaces an
/// earlier one.
pub struct Bindings {
    entries: Vec<Binding>,
}

/// The assignment that a sequence of bindings makes, the last one last.
spec fn assignment_of(entries: Seq<Binding>) -> Assignment
    decreases entries.len(),
{
    if entries.len() == 0 {
        Map::empty()
    } else {
        assignment_of(entries.drop_last()).insert(
            entries.last().name@,
            entries.last().value as int,
        )
    }
}

impl View for Bindings {
    type V = Assignment;

    closed spec fn view(&self) -> Assignment {
        assignment_of(self.entries@)
    }
}

impl Bindings {
    /// No variable has a value.
    pub fn new() -> (bindings: Bindings)
        ensures
            bindings@ == Map::<Seq<char>, int>::empty(),
    {
        Bindings { entries: Vec::new() }
    }

    /// Gives the variable `name` the value `value`.
    pub fn bind(&mut self, name: &str, value: i128)
        ensures
            final(self)@ == old(self)@.insert(name@, value as int),
    {
        self.entries.push(Binding { name: name.to_owned(), value });
        assert(self.entries@.drop_last() == old(self).entries@);
    }

    /// The value of the variable `name`, if it has one.
    pub fn lookup(&self, name: &str) -> (value: Option<i128>)
        ensures
            match value {
                Some(value) => assigned(self@, name@) == Some(value as int),
                None => assigned(self@, name@) is None,
            },
    {
        let mut i: usize = self.entries.len();
        assert(self.entries@.take(i as int) == self.entries@);
        while i > 0
            invariant
                i <= self.entries.len(),
                assigned(self@, name@) == assigned(
                    assignment_of(self.entries@.take(i as int)),
                    name@,
                ),
            decreases i,
        {
            i = i - 1;
            assert(self.entries@.take(i + 1).drop_last() == self.entries@.take(i as int));
            if same_text(self.entries[i].name.as_str(), name) {
                return Some(self.entries[i].value);
            }
        }
        None
    }
}

/// What machine arithmetic keeps of `exact`, which lies less than one
/// modulus outside the range.
fn wrapped(signed: bool, width: u8, exact: i128) -> (value: i128)
    requires
        supported_width(width as nat),
        min_value(signed, width as nat) - pow2(width as nat) <= exact <= max_value(
            signed,
            width as nat,
        ) + pow2(width as nat),
    ensures
        value == wrap(signed, width as nat, exact as int),
{
    proof {
        lemma_ranges();
        lemma_wrap_near(signed, width as nat, exact as int);
    }
    let modulus: i128 = greatest(false, width) + 1;
    if exact > greatest(signed, width) {
        exact - modulus
    } else if exact < least(signed, width) {
        exact + modulus
    } else {
        exact
    }
}

/// The exact product of two integers of at most 64 bits, unless it is
/// greater than any value of such an integer.
fn product(a: i128, b: i128) -> (exact: Option<i128>)
    requires
        -0x8000_0000_0000_0000 <= a <= 0xffff_ffff_ffff_ffff,
        -0x8000_0000_0000_0000 <= b <= 0xffff_ffff_ffff_ffff,
    ensures
        match exact {
            Some(exact) => exact == a * b,
            None => a * b > 0xffff_ffff_ffff_ffff,
        },
{
    proof {
        assert(a * b >= -0x8000_0000_0000_0000_0000_0000_0000_0000) by (nonlinear_arith)
            requires
                -0x8000_0000_0000_0000 <= a <= 0xffff_ffff_ffff_ffff,
                -0x8000_0000_0000_0000 <= b <= 0xffff_ffff_ffff_ffff,
        ;
    }
    a.checked_mul(b)
}

/// The value of a node with two operands, from the values of the operands.
pub fn apply_operator(
    op: BinaryOperator,
    left: Computed,
    right: Computed,
) -> (value: Option<Computed>)
    requires
        left.well_formed(),
        right.well_formed(),
    ensures
        computed(value) == apply(op, left@, right@),
{
    proof {
        lemma_ranges();
    }
    match (left, right) {
        (Computed::Truth(p), Computed::Truth(q)) => match op {
            BinaryOperator::And => Some(Computed::Truth(p && q)),
            BinaryOperator::Or => Some(Computed::Truth(p || q)),
            BinaryOperator::Implication => Some(Computed::Truth(!p || q)),
            BinaryOperator::Equal => Some(Computed::Truth(p == q)),
            BinaryOperator::NotEqual => Some(Computed::Truth(p != q)),
            _ => None,
        },
        (
            Computed::Bits { signed, width, value: a },
            Computed::Bits { signed: signed_right, width: width_right, value: b },
        ) => {
            if signed != signed_right || width != width_right {
                return None;
            }
            match op {
                BinaryOperator::Equal => Some(Computed::Truth(a == b)),
                BinaryOperator::NotEqual => Some(Computed::Truth(a != b)),
                BinaryOperator::LessThan => Some(Computed::Truth(a < b)),
                BinaryOperator::LessThanOrEqual => Some(Computed::Truth(a <= b)),
                BinaryOperator::GreaterThan => Some(Computed::Truth(a > b)),
                BinaryOperator::GreaterThanOrEqual => Some(Computed::Truth(a >= b)),
                BinaryOperator::Addition => Some(
                    Computed::Bits { signed, width, value: wrapped(signed, width, a + b) },
                ),
                BinaryOperator::Subtraction => Some(
                    Computed::Bits { signed, width, value: wrapped(signed, width, a - b) },
                ),
                BinaryOperator::SignedMultiplicationDoesNotOverflow => if signed {
                    match product(a, b) {
                        Some(exact) => Some(Computed::Truth(exact <= greatest(true, width))),
                        None => Some(Computed::Truth(false)),
                    }
                } else {
                    None
                },
                BinaryOperator::SignedMultiplicationDoesNotUnderflow => if signed {
                    match product(a, b) {
                        Some(exact) => Some(Computed::Truth(exact >= least(true, width))),
                        None => Some(Computed::Truth(true)),
                    }
                } else {
                    None
                },
                BinaryOperator::UnsignedMultiplicationDoesNotOverflow => if !signed {
                    match product(a, b) {
                        Some(exact) => Some(Computed::Truth(exact <= greatest(false, width))),
                        None => Some(Computed::Truth(false)),
                    }
                } else {
                    None
                },
                _ => None,
            }
        },
        _ => None,
    }
}

/// The value of the expression under the bindings, or `None` where it has
/// none.
pub fn evaluate(expression: &Expression, env: &Bindings) -> (value: Option<Computed>)
    ensures
        computed(value) == eval(expression@, env@),
    decreases expression,
{
    match expression {
        Expression::BooleanLiteral(truth) => Some(Computed::Truth(*truth)),
        Expression::SignedBitVector(data) => {
            if !is_supported_width(data.size) {
                return None;
            }
            let value: i128 = data.value as i128;
            if least(true, data.size) <= value && value <= greatest(true, data.size) {
                Some(Computed::Bits { signed: true, width: data.size, value })
            } else {
                None
            }
        },
        Expression::VariableMapping(data) => {
            match (classify(data.var_type.as_str()), env.lookup(data.name.as_str())) {
                (Some(kind), Some(value)) => {
                    let signed = kind.is_signed();
                    let width: u8 = kind.width();
                    if least(signed, width) <= value && value <= greatest(signed, width) {
                        Some(Computed::Bits { signed, width, value })
                    } else {
                        None
                    }
                },
                _ => None,
            }
        },
        Expression::UnaryExpression(data) => {
            match evaluate(&*data.e, env) {
                Some(Computed::Truth(truth)) => Some(Computed::Truth(!truth)),
                _ => None,
            }
        },
        Expression::BinaryExpression(data) => {
            match (evaluate(&*data.left, env), evaluate(&*data.right, env)) {
                (Some(left), Some(right)) => {
                    proof {
                        lemma_eval_in_range(data.left@, env@);
                        lemma_eval_in_range(data.right@, env@);
                    }
                    apply_operator(data.op, left, right)
                },
                _ => None,
            }
        },
    }
}

/// Whether the expression is true under the bindings.
pub fn is_true(expression: &Expression, env: &Bindings) -> (truth: bool)
    ensures
        truth == holds(expression@, env@),
{
    match evaluate(expression, env) {
        Some(Computed::Truth(truth)) => truth,
        _ => false,
    }
}

} // verus!
