//! What a formula means: its value under an assignment of the variables.
//!
//! Comparisons are those of the integers. Addition and subtraction wrap as
//! the machine does. The three multiplication predicates are those of the
//! theory of fixed-width bit-vectors: each says that the exact product does
//! not leave the range on one side.

use vstd::arithmetic::power2::pow2;
use vstd::prelude::*;

use crate::expression::{BinaryOperator, Formula};
use crate::kind::{in_range, kind_of, lemma_ranges, max_value, min_value, supported_width, wrap};

verus! {

/// The value of a formula or term.
pub enum Value {
    Truth(bool),
    Bits { signed: bool, width: nat, value: int },
}

/// The values of the program's variables, by name.
pub type Assignment = Map<Seq<char>, int>;

impl Value {
    /// Whether the value is an integer of the given signedness and width.
    pub open spec fn has_sort(self, signed: bool, width: nat) -> bool {
        self matches Value::Bits { signed: s, width: w, .. } && s == signed && w == width
    }

    /// The integer that the value holds, for a value of the second variant.
    pub open spec fn number(self) -> int {
        match self {
            Value::Bits { value, .. } => value,
            Value::Truth(_) => 0,
        }
    }
}

/// The value of a node with two operands, from the values of the operands.
/// There is none where the operands do not suit the operator: a connective
/// wants two truth values, a comparison or an arithmetic operator two
/// integers of one signedness and width, a multiplication predicate two
/// integers of its own signedness.
pub open spec fn apply(op: BinaryOperator, left: Value, right: Value) -> Option<Value> {
    match (left, right) {
        (Value::Truth(p), Value::Truth(q)) => match op {
            BinaryOperator::And => Some(Value::Truth(p && q)),
            BinaryOperator::Or => Some(Value::Truth(p || q)),
            BinaryOperator::Implication => Some(Value::Truth(p ==> q)),
            BinaryOperator::Equal => Some(Value::Truth(p == q)),
            BinaryOperator::NotEqual => Some(Value::Truth(p != q)),
            _ => None,
        },
        (
            Value::Bits { signed, width, value: a },
            Value::Bits { signed: signed_right, width: width_right, value: b },
        ) => if signed == signed_right && width == width_right {
            match op {
                BinaryOperator::Equal => Some(Value::Truth(a == b)),
                BinaryOperator::NotEqual => Some(Value::Truth(a != b)),
                BinaryOperator::LessThan => Some(Value::Truth(a < b)),
                BinaryOperator::LessThanOrEqual => Some(Value::Truth(a <= b)),
                BinaryOperator::GreaterThan => Some(Value::Truth(a > b)),
                BinaryOperator::GreaterThanOrEqual => Some(Value::Truth(a >= b)),
                BinaryOperator::Addition => Some(
                    Value::Bits { signed, width, value: wrap(signed, width, a + b) },
                ),
                BinaryOperator::Subtraction => Some(
                    Value::Bits { signed, width, value: wrap(signed, width, a - b) },
                ),
                BinaryOperator::SignedMultiplicationDoesNotOverflow => if signed {
                    Some(Value::Truth(a * b <= max_value(true, width)))
                } else {
                    None
                },
                BinaryOperator::SignedMultiplicationDoesNotUnderflow => if signed {
                    Some(Value::Truth(a * b >= min_value(true, width)))
                } else {
                    None
                },
                BinaryOperator::UnsignedMultiplicationDoesNotOverflow => if !signed {
                    Some(Value::Truth(a * b <= max_value(false, width)))
                } else {
                    None
                },
                _ => None,
            }
        } else {
            None
        },
        _ => None,
    }
}

/// The value of a variable of the declared type `var_type` that the
/// assignment gives `assigned`: there is one where the type is one of the
/// eight and holds the assigned integer.
pub open spec fn variable_value(var_type: Seq<char>, assigned: Option<int>) -> Option<Value> {
    match (kind_of(var_type), assigned) {
        (Some(kind), Some(value)) => if kind.holds(value) {
            Some(Value::Bits { signed: kind.signed(), width: kind.bits(), value })
        } else {
            None
        },
        _ => None,
    }
}

/// What the assignment gives a name.
pub open spec fn assigned(env: Assignment, name: Seq<char>) -> Option<int> {
    if env.contains_key(name) {
        Some(env[name])
    } else {
        None
    }
}

/// The value of a literal: there is one where the formula is well formed.
pub open spec fn literal_value(width: nat, value: int) -> Option<Value> {
    if supported_width(width) && in_range(true, width, value) {
        Some(Value::Bits { signed: true, width, value })
    } else {
        None
    }
}

/// The value of a negation, from the value of its operand.
pub open spec fn negate(operand: Option<Value>) -> Option<Value> {
    match operand {
        Some(Value::Truth(p)) => Some(Value::Truth(!p)),
        _ => None,
    }
}

/// The value of a node with two operands, where both have one.
pub open spec fn combine(
    op: BinaryOperator,
    left: Option<Value>,
    right: Option<Value>,
) -> Option<Value> {
    match (left, right) {
        (Some(a), Some(b)) => apply(op, a, b),
        _ => None,
    }
}

/// The value of a formula under an assignment, or `None` where it has none:
/// a variable is unassigned, of an unknown type or assigned an integer that
/// its type does not hold, a literal is malformed, or an operator is applied
/// to operands that do not suit it.
pub open spec fn eval(formula: Formula, env: Assignment) -> Option<Value>
    decreases formula,
{
    match formula {
        Formula::Boolean(value) => Some(Value::Truth(value)),
        Formula::SignedLiteral { width, value } => literal_value(width, value),
        Formula::Variable { name, var_type } => variable_value(var_type, assigned(env, name)),
        Formula::Not(operand) => negate(eval(*operand, env)),
        Formula::Binary { op, left, right } => combine(op, eval(*left, env), eval(*right, env)),
    }
}

/// Whether the formula is true under the assignment.
pub open spec fn holds(formula: Formula, env: Assignment) -> bool {
    eval(formula, env) == Some(Value::Truth(true))
}

/// The values of two operands under an assignment, where both are integers
/// of the given signedness and width.
pub open spec fn operands(
    left: Formula,
    right: Formula,
    env: Assignment,
    signed: bool,
    width: nat,
) -> Option<(int, int)> {
    match (eval(left, env), eval(right, env)) {
        (Some(a), Some(b)) => if a.has_sort(signed, width) && b.has_sort(signed, width) {
            Some((a.number(), b.number()))
        } else {
            None
        },
        _ => None,
    }
}

/// Wrapping lands in the range.
pub proof fn lemma_wrap_in_range(signed: bool, width: nat, value: int)
    requires
        supported_width(width),
    ensures
        in_range(signed, width, wrap(signed, width, value)),
{
    lemma_ranges();
}

/// The residue of an integer that is less than one modulus away from the
/// residues.
proof fn lemma_residue_near(value: int, modulus: int)
    requires
        modulus > 0,
        -modulus <= value < 2 * modulus,
    ensures
        value % modulus == if value < 0 {
            value + modulus
        } else if value < modulus {
            value
        } else {
            value - modulus
        },
{
    if value < 0 {
        vstd::arithmetic::div_mod::lemma_mod_add_multiples_vanish(value, modulus);
        vstd::arithmetic::div_mod::lemma_small_mod((value + modulus) as nat, modulus as nat);
    } else if value < modulus {
        vstd::arithmetic::div_mod::lemma_small_mod(value as nat, modulus as nat);
    } else {
        vstd::arithmetic::div_mod::lemma_mod_sub_multiples_vanish(value, modulus);
        vstd::arithmetic::div_mod::lemma_small_mod((value - modulus) as nat, modulus as nat);
    }
}

/// Wrapping keeps what is in the range, and differs from the exact value by
/// one modulus where that value is less than one modulus outside.
pub proof fn lemma_wrap_near(signed: bool, width: nat, value: int)
    requires
        supported_width(width),
    ensures
        in_range(signed, width, value) ==> wrap(signed, width, value) == value,
        max_value(signed, width) < value <= max_value(signed, width) + pow2(width) ==> wrap(
            signed,
            width,
            value,
        ) == value - pow2(width),
        min_value(signed, width) - pow2(width) <= value < min_value(signed, width) ==> wrap(
            signed,
            width,
            value,
        ) == value + pow2(width),
{
    lemma_ranges();
    let modulus = pow2(width) as int;
    if -modulus <= value < 2 * modulus {
        lemma_residue_near(value, modulus);
    } else if -2 * modulus <= value < -modulus {
        lemma_residue_near(value + modulus, modulus);
        vstd::arithmetic::div_mod::lemma_mod_add_multiples_vanish(value, modulus);
    }
}

/// An integer value has a supported width and lies in its range.
pub proof fn lemma_eval_in_range(formula: Formula, env: Assignment)
    ensures
        eval(formula, env) matches Some(Value::Bits { signed, width, value }) ==> supported_width(
            width,
        ) && in_range(signed, width, value),
    decreases formula,
{
    match formula {
        Formula::Binary { op, left, right } => {
            lemma_eval_in_range(*left, env);
            lemma_eval_in_range(*right, env);
            match (eval(*left, env), eval(*right, env)) {
                (
                    Some(Value::Bits { signed, width, value: a }),
                    Some(Value::Bits { value: b, .. }),
                ) => {
                    lemma_wrap_in_range(signed, width, a + b);
                    lemma_wrap_in_range(signed, width, a - b);
                },
                _ => {},
            }
        },
        _ => {},
    }
}

} // verus!
