//! The safety formula of each arithmetic operation, and the check that
//! conjoins it onto a precondition.

use vstd::prelude::*;

use crate::expression::{BinaryOperator, Expression, Formula, VariableMappingData};
use crate::kind::{
    classify, in_range, kind_of, lemma_ranges, min_value, supported_width, IntKind,
};
use crate::semantics::{eval, operands, Assignment, Value};
use crate::soundness::{
    law_signed_add_exact, law_signed_div_exact, law_signed_mul_exact, law_signed_sub_exact,
    law_unsigned_add_exact, law_unsigned_mul_exact, law_unsigned_sub_exact,
};

verus! {

/// The binary operators of a program.
#[derive(Clone, Copy, Debug, PartialEq, Eq, Structural)]
pub enum BinOp {
    Add,
    Sub,
    Mul,
    Div,
    Rem,
    BitXor,
    BitAnd,
    BitOr,
    Shl,
    Shr,
    Eq,
    Lt,
    Le,
    Ne,
    Ge,
    Gt,
}

/// Why no safety formula was built. None of these is recovered from: a
/// precondition that lacks a safety formula would certify programs that
/// overflow.
#[derive(Clone, Copy, Debug, PartialEq, Eq, Structural)]
pub enum OverflowError {
    /// The declared type is not one of the eight fixed-width integer types.
    UnsupportedType,
    /// No safety formula is defined for the operator.
    UnsupportedOperator,
    /// An operator was met where the routing rules it out: division or
    /// remainder of operands without a sign.
    InternalInvariantViolation,
}

/// `term >= 0`, for a two's-complement term of `width` bits.
pub open spec fn non_negative(width: nat, term: Formula) -> Formula {
    Formula::binary(BinaryOperator::GreaterThanOrEqual, term, Formula::signed_literal(width, 0))
}

/// `term < 0`, for a two's-complement term of `width` bits.
pub open spec fn negative(width: nat, term: Formula) -> Formula {
    Formula::binary(BinaryOperator::LessThan, term, Formula::signed_literal(width, 0))
}

/// `left + right`, wrapping.
pub open spec fn sum(left: Formula, right: Formula) -> Formula {
    Formula::binary(BinaryOperator::Addition, left, right)
}

/// `left - right`, wrapping.
pub open spec fn difference(left: Formula, right: Formula) -> Formula {
    Formula::binary(BinaryOperator::Subtraction, left, right)
}

/// The safety formula of `left + right` in two's complement:
/// `(left >= 0 && right >= 0) ==> left + right >= 0`, and
/// `(left < 0 || right < 0) ==> ((left < 0 && right < 0) ==> left + right < 0)`.
pub open spec fn signed_add_formula(width: nat, left: Formula, right: Formula) -> Formula {
    Formula::conjunction(
        Formula::implication(
            Formula::conjunction(non_negative(width, left), non_negative(width, right)),
            non_negative(width, sum(left, right)),
        ),
        Formula::implication(
            Formula::disjunction(negative(width, left), negative(width, right)),
            Formula::implication(
                Formula::conjunction(negative(width, left), negative(width, right)),
                negative(width, sum(left, right)),
            ),
        ),
    )
}

/// The safety formula of `left - right` in two's complement:
/// `(left >= 0 && right < 0) ==> left - right >= 0`, and
/// `(left < 0 || right >= 0) ==> ((left < 0 && right >= 0) ==> left - right < 0)`.
pub open spec fn signed_sub_formula(width: nat, left: Formula, right: Formula) -> Formula {
    Formula::conjunction(
        Formula::implication(
            Formula::conjunction(non_negative(width, left), negative(width, right)),
            non_negative(width, difference(left, right)),
        ),
        Formula::implication(
            Formula::disjunction(negative(width, left), non_negative(width, right)),
            Formula::implication(
                Formula::conjunction(negative(width, left), non_negative(width, right)),
                negative(width, difference(left, right)),
            ),
        ),
    )
}

/// The safety formula of `left * right` in two's complement: the product
/// leaves the range neither above nor below.
pub open spec fn signed_mul_formula(left: Formula, right: Formula) -> Formula {
    Formula::conjunction(
        Formula::binary(BinaryOperator::SignedMultiplicationDoesNotOverflow, left, right),
        Formula::binary(BinaryOperator::SignedMultiplicationDoesNotUnderflow, left, right),
    )
}

/// The one case in which a two's-complement division traps:
/// `left == MIN && right == -1`.
pub open spec fn division_trap(width: nat, left: Formula, right: Formula) -> Formula {
    Formula::conjunction(
        Formula::binary(
            BinaryOperator::Equal,
            left,
            Formula::signed_literal(width, min_value(true, width)),
        ),
        Formula::binary(BinaryOperator::Equal, right, Formula::signed_literal(width, -1)),
    )
}

/// The safety formula of `left / right` and of `left % right` in two's
/// complement: `(trap ==> false) && (!trap ==> true)`.
pub open spec fn signed_div_formula(width: nat, left: Formula, right: Formula) -> Formula {
    Formula::conjunction(
        Formula::implication(division_trap(width, left, right), Formula::Boolean(false)),
        Formula::implication(
            Formula::negation(division_trap(width, left, right)),
            Formula::Boolean(true),
        ),
    )
}

/// The safety formula of `left + right` without a sign:
/// `left + right >= right`.
pub open spec fn unsigned_add_formula(left: Formula, right: Formula) -> Formula {
    Formula::binary(BinaryOperator::GreaterThanOrEqual, sum(left, right), right)
}

/// The safety formula of `left - right` without a sign:
/// `left - right <= left`.
pub open spec fn unsigned_sub_formula(left: Formula, right: Formula) -> Formula {
    Formula::binary(BinaryOperator::LessThanOrEqual, difference(left, right), left)
}

/// The safety formula of `left * right` without a sign: the product does
/// not leave the range above.
pub open spec fn unsigned_mul_formula(left: Formula, right: Formula) -> Formula {
    Formula::binary(BinaryOperator::UnsignedMultiplicationDoesNotOverflow, left, right)
}

/// What a check for two's-complement operands of `width` bits gives: the
/// safety formula of the operator, or the reason why there is none.
pub open spec fn signed_overflow_spec(
    op: BinOp,
    width: nat,
    left: Formula,
    right: Formula,
) -> Result<Formula, OverflowError> {
    match op {
        BinOp::Add => Ok(signed_add_formula(width, left, right)),
        BinOp::Sub => Ok(signed_sub_formula(width, left, right)),
        BinOp::Mul => Ok(signed_mul_formula(left, right)),
        BinOp::Div | BinOp::Rem => Ok(signed_div_formula(width, left, right)),
        _ => Err(OverflowError::UnsupportedOperator),
    }
}

/// What a check for operands without a sign gives. Division and remainder
/// cannot overflow there, and are not to be asked for.
pub open spec fn unsigned_overflow_spec(
    op: BinOp,
    left: Formula,
    right: Formula,
) -> Result<Formula, OverflowError> {
    match op {
        BinOp::Add => Ok(unsigned_add_formula(left, right)),
        BinOp::Sub => Ok(unsigned_sub_formula(left, right)),
        BinOp::Mul => Ok(unsigned_mul_formula(left, right)),
        BinOp::Div | BinOp::Rem => Err(OverflowError::InternalInvariantViolation),
        _ => Err(OverflowError::UnsupportedOperator),
    }
}

/// What a check for operands of the type `kind` gives.
pub open spec fn safety_formula(
    kind: IntKind,
    op: BinOp,
    left: Formula,
    right: Formula,
) -> Result<Formula, OverflowError> {
    if kind.signed() {
        signed_overflow_spec(op, kind.bits(), left, right)
    } else {
        unsigned_overflow_spec(op, left, right)
    }
}

/// What `overflow_check` gives: the precondition conjoined with the safety
/// formula, or the reason why there is none. An unsupported type is found
/// before an unsupported operator.
pub open spec fn overflow_check_spec(
    wp: Formula,
    var_type: Seq<char>,
    op: BinOp,
    left: Formula,
    right: Formula,
) -> Result<Formula, OverflowError> {
    match kind_of(var_type) {
        None => Err(OverflowError::UnsupportedType),
        Some(kind) => match safety_formula(kind, op, left, right) {
            Ok(condition) => Ok(Formula::conjunction(wp, condition)),
            Err(error) => Err(error),
        },
    }
}

/// The formula that a successful result denotes, or its error.
pub open spec fn denoted(
    result: Result<Expression, OverflowError>,
) -> Result<Formula, OverflowError> {
    match result {
        Ok(expression) => Ok(expression@),
        Err(error) => Err(error),
    }
}

/// The safety formulas are well formed where the operands are and the width
/// is supported.
pub proof fn lemma_safety_well_formed(width: nat, left: Formula, right: Formula)
    requires
        left.well_formed(),
        right.well_formed(),
    ensures
        supported_width(width) ==> signed_add_formula(width, left, right).well_formed(),
        supported_width(width) ==> signed_sub_formula(width, left, right).well_formed(),
        supported_width(width) ==> signed_div_formula(width, left, right).well_formed(),
        signed_mul_formula(left, right).well_formed(),
        unsigned_add_formula(left, right).well_formed(),
        unsigned_sub_formula(left, right).well_formed(),
        unsigned_mul_formula(left, right).well_formed(),
{
    reveal_with_fuel(Formula::well_formed, 6);
    lemma_ranges();
}

fn at_least_zero(size: u8, term: Expression) -> (test: Expression)
    ensures
        test@ == non_negative(size as nat, term@),
{
    Expression::binary(
        BinaryOperator::GreaterThanOrEqual,
        term,
        Expression::signed_literal(size, 0i64),
    )
}

fn below_zero(size: u8, term: Expression) -> (test: Expression)
    ensures
        test@ == negative(size as nat, term@),
{
    Expression::binary(BinaryOperator::LessThan, term, Expression::signed_literal(size, 0i64))
}

fn sum_of(lvalue: &Expression, rvalue: &Expression) -> (term: Expression)
    ensures
        term@ == sum(lvalue@, rvalue@),
{
    Expression::binary(BinaryOperator::Addition, lvalue.clone(), rvalue.clone())
}

fn difference_of(lvalue: &Expression, rvalue: &Expression) -> (term: Expression)
    ensures
        term@ == difference(lvalue@, rvalue@),
{
    Expression::binary(BinaryOperator::Subtraction, lvalue.clone(), rvalue.clone())
}

/// Builds the safety formula of `lvalue + rvalue` for two's-complement
/// operands of `size` bits. Under every assignment that gives both operands
/// such values, the formula is true exactly where the exact sum is in range.
pub fn signed_add(size: u8, lvalue: &Expression, rvalue: &Expression) -> (check: Expression)
    ensures
        check@ == signed_add_formula(size as nat, lvalue@, rvalue@),
        supported_width(size as nat) && lvalue@.well_formed() && rvalue@.well_formed()
            ==> check@.well_formed(),
        forall|env: Assignment|
            #![trigger operands(lvalue@, rvalue@, env, true, size as nat)]
            operands(lvalue@, rvalue@, env, true, size as nat) matches Some((a, b)) ==> eval(
                check@,
                env,
            ) == Some(Value::Truth(in_range(true, size as nat, a + b))),
{
    let check = Expression::conjunction(
        Expression::implication(
            Expression::conjunction(
                at_least_zero(size, lvalue.clone()),
                at_least_zero(size, rvalue.clone()),
            ),
            at_least_zero(size, sum_of(lvalue, rvalue)),
        ),
        Expression::implication(
            Expression::disjunction(
                below_zero(size, lvalue.clone()),
                below_zero(size, rvalue.clone()),
            ),
            Expression::implication(
                Expression::conjunction(
                    below_zero(size, lvalue.clone()),
                    below_zero(size, rvalue.clone()),
                ),
                below_zero(size, sum_of(lvalue, rvalue)),
            ),
        ),
    );
    proof {
        if lvalue@.well_formed() && rvalue@.well_formed() {
            lemma_safety_well_formed(size as nat, lvalue@, rvalue@);
        }
        assert forall|env: Assignment|
            #![trigger operands(lvalue@, rvalue@, env, true, size as nat)]
            operands(lvalue@, rvalue@, env, true, size as nat) matches Some((a, b)) ==> eval(
                check@,
                env,
            ) == Some(Value::Truth(in_range(true, size as nat, a + b))) by {
            if let Some((a, b)) = operands(lvalue@, rvalue@, env, true, size as nat) {
                law_signed_add_exact(size as nat, lvalue@, rvalue@, env, a, b);
            }
        }
    }
    check
}

/// Builds the safety formula of `lvalue - rvalue` for two's-complement
/// operands of `size` bits. Under every assignment that gives both operands
/// such values, the formula is true exactly where the exact difference is in
/// range.
pub fn signed_sub(size: u8, lvalue: &Expression, rvalue: &Expression) -> (check: Expression)
    ensures
        check@ == signed_sub_formula(size as nat, lvalue@, rvalue@),
        supported_width(size as nat) && lvalue@.well_formed() && rvalue@.well_formed()
            ==> check@.well_formed(),
        forall|env: Assignment|
            #![trigger operands(lvalue@, rvalue@, env, true, size as nat)]
            operands(lvalue@, rvalue@, env, true, size as nat) matches Some((a, b)) ==> eval(
                check@,
                env,
            ) == Some(Value::Truth(in_range(true, size as nat, a - b))),
{
    let check = Expression::conjunction(
        Expression::implication(
            Expression::conjunction(
                at_least_zero(size, lvalue.clone()),
                below_zero(size, rvalue.clone()),
            ),
            at_least_zero(size, difference_of(lvalue, rvalue)),
        ),
        Expression::implication(
            Expression::disjunction(
                below_zero(size, lvalue.clone()),
                at_least_zero(size, rvalue.clone()),
            ),
            Expression::implication(
                Expression::conjunction(
                    below_zero(size, lvalue.clone()),
                    at_least_zero(size, rvalue.clone()),
                ),
                below_zero(size, difference_of(lvalue, rvalue)),
            ),
        ),
    );
    proof {
        if lvalue@.well_formed() && rvalue@.well_formed() {
            lemma_safety_well_formed(size as nat, lvalue@, rvalue@);
        }
        assert forall|env: Assignment|
            #![trigger operands(lvalue@, rvalue@, env, true, size as nat)]
            operands(lvalue@, rvalue@, env, true, size as nat) matches Some((a, b)) ==> eval(
                check@,
                env,
            ) == Some(Value::Truth(in_range(true, size as nat, a - b))) by {
            if let Some((a, b)) = operands(lvalue@, rvalue@, env, true, size as nat) {
                law_signed_sub_exact(size as nat, lvalue@, rvalue@, env, a, b);
            }
        }
    }
    check
}

/// Builds the safety formula of `lvalue * rvalue` for two's-complement
/// operands: two predicates that are left to the theory of bit-vectors.
/// Under every assignment that gives both operands two's-complement values
/// of one width, the formula is true exactly where the exact product is in
/// range.
pub fn signed_mul(lvalue: &Expression, rvalue: &Expression) -> (check: Expression)
    ensures
        check@ == signed_mul_formula(lvalue@, rvalue@),
        lvalue@.well_formed() && rvalue@.well_formed() ==> check@.well_formed(),
        forall|env: Assignment, width: nat|
            #![trigger operands(lvalue@, rvalue@, env, true, width)]
            operands(lvalue@, rvalue@, env, true, width) matches Some((a, b)) ==> eval(
                check@,
                env,
            ) == Some(Value::Truth(in_range(true, width, a * b))),
{
    let overflow = Expression::binary(
        BinaryOperator::SignedMultiplicationDoesNotOverflow,
        lvalue.clone(),
        rvalue.clone(),
    );
    let underflow = Expression::binary(
        BinaryOperator::SignedMultiplicationDoesNotUnderflow,
        lvalue.clone(),
        rvalue.clone(),
    );
    let check = Expression::conjunction(overflow, underflow);
    proof {
        if lvalue@.well_formed() && rvalue@.well_formed() {
            lemma_safety_well_formed(8, lvalue@, rvalue@);
        }
        assert forall|env: Assignment, width: nat|
            #![trigger operands(lvalue@, rvalue@, env, true, width)]
            operands(lvalue@, rvalue@, env, true, width) matches Some((a, b)) ==> eval(
                check@,
                env,
            ) == Some(Value::Truth(in_range(true, width, a * b))) by {
            if let Some((a, b)) = operands(lvalue@, rvalue@, env, true, width) {
                law_signed_mul_exact(width, lvalue@, rvalue@, env, a, b);
            }
        }
    }
    check
}

/// The literal of the least two's-complement value of `size` bits.
fn least_literal(size: u8) -> (leaf: Expression)
    requires
        supported_width(size as nat),
    ensures
        leaf@ == Formula::signed_literal(size as nat, min_value(true, size as nat)),
{
    proof {
        lemma_ranges();
    }
    let value: i64 = if size == 8 {
        i8::MIN as i64
    } else if size == 16 {
        i16::MIN as i64
    } else if size == 32 {
        i32::MIN as i64
    } else {
        i64::MIN
    };
    Expression::signed_literal(size, value)
}

/// Builds the safety formula of `lvalue / rvalue`, and of `lvalue % rvalue`,
/// for two's-complement operands of `size` bits. Under every assignment that
/// gives both operands such values, the formula is false exactly where the
/// dividend is the least value and the divisor is `-1`.
pub fn signed_div(size: u8, lvalue: &Expression, rvalue: &Expression) -> (check: Expression)
    requires
        supported_width(size as nat),
    ensures
        check@ == signed_div_formula(size as nat, lvalue@, rvalue@),
        lvalue@.well_formed() && rvalue@.well_formed() ==> check@.well_formed(),
        forall|env: Assignment|
            #![trigger operands(lvalue@, rvalue@, env, true, size as nat)]
            operands(lvalue@, rvalue@, env, true, size as nat) matches Some((a, b)) ==> eval(
                check@,
                env,
            ) == Some(Value::Truth(!(a == min_value(true, size as nat) && b == -1))),
{
    let condition = Expression::conjunction(
        Expression::binary(BinaryOperator::Equal, lvalue.clone(), least_literal(size)),
        Expression::binary(
            BinaryOperator::Equal,
            rvalue.clone(),
            Expression::signed_literal(size, -1i64),
        ),
    );
    let check = Expression::conjunction(
        Expression::implication(condition.clone(), Expression::boolean_literal(false)),
        Expression::implication(Expression::negation(condition), Expression::boolean_literal(true)),
    );
    proof {
        if lvalue@.well_formed() && rvalue@.well_formed() {
            lemma_safety_well_formed(size as nat, lvalue@, rvalue@);
        }
        assert forall|env: Assignment|
            #![trigger operands(lvalue@, rvalue@, env, true, size as nat)]
            operands(lvalue@, rvalue@, env, true, size as nat) matches Some((a, b)) ==> eval(
                check@,
                env,
            ) == Some(Value::Truth(!(a == min_value(true, size as nat) && b == -1))) by {
            if let Some((a, b)) = operands(lvalue@, rvalue@, env, true, size as nat) {
                law_signed_div_exact(size as nat, lvalue@, rvalue@, env, a, b);
            }
        }
    }
    check
}

/// Builds the safety formula of `lvalue + rvalue` for operands without a
/// sign. Under every assignment that gives both operands such values of one
/// width, the formula is true exactly where the exact sum is in range.
pub fn unsigned_add(lvalue: &Expression, rvalue: &Expression) -> (check: Expression)
    ensures
        check@ == unsigned_add_formula(lvalue@, rvalue@),
        lvalue@.well_formed() && rvalue@.well_formed() ==> check@.well_formed(),
        forall|env: Assignment, width: nat|
            #![trigger operands(lvalue@, rvalue@, env, false, width)]
            operands(lvalue@, rvalue@, env, false, width) matches Some((a, b)) ==> eval(
                check@,
                env,
            ) == Some(Value::Truth(in_range(false, width, a + b))),
{
    let check = Expression::binary(
        BinaryOperator::GreaterThanOrEqual,
        sum_of(lvalue, rvalue),
        rvalue.clone(),
    );
    proof {
        if lvalue@.well_formed() && rvalue@.well_formed() {
            lemma_safety_well_formed(8, lvalue@, rvalue@);
        }
        assert forall|env: Assignment, width: nat|
            #![trigger operands(lvalue@, rvalue@, env, false, width)]
            operands(lvalue@, rvalue@, env, false, width) matches Some((a, b)) ==> eval(
                check@,
                env,
            ) == Some(Value::Truth(in_range(false, width, a + b))) by {
            if let Some((a, b)) = operands(lvalue@, rvalue@, env, false, width) {
                law_unsigned_add_exact(width, lvalue@, rvalue@, env, a, b);
            }
        }
    }
    check
}

/// Builds the safety formula of `lvalue - rvalue` for operands without a
/// sign. Under every assignment that gives both operands such values of one
/// width, the formula is true exactly where the exact difference is in
/// range.
pub fn unsigned_sub(lvalue: &Expression, rvalue: &Expression) -> (check: Expression)
    ensures
        check@ == unsigned_sub_formula(lvalue@, rvalue@),
        lvalue@.well_formed() && rvalue@.well_formed() ==> check@.well_formed(),
        forall|env: Assignment, width: nat|
            #![trigger operands(lvalue@, rvalue@, env, false, width)]
            operands(lvalue@, rvalue@, env, false, width) matches Some((a, b)) ==> eval(
                check@,
                env,
            ) == Some(Value::Truth(in_range(false, width, a - b))),
{
    let check = Expression::binary(
        BinaryOperator::LessThanOrEqual,
        difference_of(lvalue, rvalue),
        lvalue.clone(),
    );
    proof {
        if lvalue@.well_formed() && rvalue@.well_formed() {
            lemma_safety_well_formed(8, lvalue@, rvalue@);
        }
        assert forall|env: Assignment, width: nat|
            #![trigger operands(lvalue@, rvalue@, env, false, width)]
            operands(lvalue@, rvalue@, env, false, width) matches Some((a, b)) ==> eval(
                check@,
                env,
            ) == Some(Value::Truth(in_range(false, width, a - b))) by {
            if let Some((a, b)) = operands(lvalue@, rvalue@, env, false, width) {
                law_unsigned_sub_exact(width, lvalue@, rvalue@, env, a, b);
            }
        }
    }
    check
}

/// Builds the safety formula of `lvalue * rvalue` for operands without a
/// sign: one predicate that is left to the theory of bit-vectors. Under
/// every assignment that gives both operands such values of one width, the
/// formula is true exactly where the exact product is in range.
pub fn unsigned_mul(lvalue: &Expression, rvalue: &Expression) -> (check: Expression)
    ensures
        check@ == unsigned_mul_formula(lvalue@, rvalue@),
        lvalue@.well_formed() && rvalue@.well_formed() ==> check@.well_formed(),
        forall|env: Assignment, width: nat|
            #![trigger operands(lvalue@, rvalue@, env, false, width)]
            operands(lvalue@, rvalue@, env, false, width) matches Some((a, b)) ==> eval(
                check@,
                env,
            ) == Some(Value::Truth(in_range(false, width, a * b))),
{
    let check = Expression::binary(
        BinaryOperator::UnsignedMultiplicationDoesNotOverflow,
        lvalue.clone(),
        rvalue.clone(),
    );
    proof {
        if lvalue@.well_formed() && rvalue@.well_formed() {
            lemma_safety_well_formed(8, lvalue@, rvalue@);
        }
        assert forall|env: Assignment, width: nat|
            #![trigger operands(lvalue@, rvalue@, env, false, width)]
            operands(lvalue@, rvalue@, env, false, width) matches Some((a, b)) ==> eval(
                check@,
                env,
            ) == Some(Value::Truth(in_range(false, width, a * b))) by {
            if let Some((a, b)) = operands(lvalue@, rvalue@, env, false, width) {
                law_unsigned_mul_exact(width, lvalue@, rvalue@, env, a, b);
            }
        }
    }
    check
}

/// Routes a check for two's-complement operands of `size` bits to the
/// formula of its operator. Remainder shares the formula of division.
/// Shifts, bitwise operators and comparisons have none.
pub fn signed_overflow(
    binop: &BinOp,
    size: u8,
    lvalue: &Expression,
    rvalue: &Expression,
) -> (res: Result<Expression, OverflowError>)
    requires
        *binop == BinOp::Div || *binop == BinOp::Rem ==> supported_width(size as nat),
    ensures
        denoted(res) == signed_overflow_spec(*binop, size as nat, lvalue@, rvalue@),
        supported_width(size as nat) && lvalue@.well_formed() && rvalue@.well_formed() ==> (res
            matches Ok(check) ==> check@.well_formed()),
{
    match *binop {
        BinOp::Add => Ok(signed_add(size, lvalue, rvalue)),
        BinOp::Mul => Ok(signed_mul(lvalue, rvalue)),
        BinOp::Sub => Ok(signed_sub(size, lvalue, rvalue)),
        BinOp::Div => Ok(signed_div(size, lvalue, rvalue)),
        BinOp::Rem => Ok(signed_div(size, lvalue, rvalue)),
        BinOp::Shl => Err(OverflowError::UnsupportedOperator),
        BinOp::Shr => Err(OverflowError::UnsupportedOperator),
        BinOp::BitOr => Err(OverflowError::UnsupportedOperator),
        BinOp::BitAnd => Err(OverflowError::UnsupportedOperator),
        BinOp::BitXor => Err(OverflowError::UnsupportedOperator),
        BinOp::Lt => Err(OverflowError::UnsupportedOperator),
        BinOp::Le => Err(OverflowError::UnsupportedOperator),
        BinOp::Gt => Err(OverflowError::UnsupportedOperator),
        BinOp::Ge => Err(OverflowError::UnsupportedOperator),
        BinOp::Eq => Err(OverflowError::UnsupportedOperator),
        BinOp::Ne => Err(OverflowError::UnsupportedOperator),
    }
}

/// Routes a check for operands without a sign to the formula of its
/// operator. Division and remainder cannot overflow there: to meet one is a
/// fault of the caller's routing, not an unsupported operator.
pub fn unsigned_overflow(
    binop: &BinOp,
    lvalue: &Expression,
    rvalue: &Expression,
) -> (res: Result<Expression, OverflowError>)
    ensures
        denoted(res) == unsigned_overflow_spec(*binop, lvalue@, rvalue@),
        lvalue@.well_formed() && rvalue@.well_formed() ==> (res matches Ok(check)
            ==> check@.well_formed()),
{
    match *binop {
        BinOp::Add => Ok(unsigned_add(lvalue, rvalue)),
        BinOp::Sub => Ok(unsigned_sub(lvalue, rvalue)),
        BinOp::Mul => Ok(unsigned_mul(lvalue, rvalue)),
        BinOp::Div => Err(OverflowError::InternalInvariantViolation),
        BinOp::Rem => Err(OverflowError::InternalInvariantViolation),
        BinOp::Shl => Err(OverflowError::UnsupportedOperator),
        BinOp::Shr => Err(OverflowError::UnsupportedOperator),
        BinOp::BitOr => Err(OverflowError::UnsupportedOperator),
        BinOp::BitAnd => Err(OverflowError::UnsupportedOperator),
        BinOp::BitXor => Err(OverflowError::UnsupportedOperator),
        BinOp::Lt => Err(OverflowError::UnsupportedOperator),
        BinOp::Le => Err(OverflowError::UnsupportedOperator),
        BinOp::Gt => Err(OverflowError::UnsupportedOperator),
        BinOp::Ge => Err(OverflowError::UnsupportedOperator),
        BinOp::Eq => Err(OverflowError::UnsupportedOperator),
        BinOp::Ne => Err(OverflowError::UnsupportedOperator),
    }
}

/// Conjoins onto the precondition `wp` the safety formula of the operation
/// `lvalue binop rvalue`, whose result goes to the variable `var`.
///
/// The declared type of `var` decides the family and the width. Where it is
/// not one of the eight fixed-width integer types, or the operator has no
/// safety formula, the check fails and gives no formula.
pub fn overflow_check(
    wp: &Expression,
    var: &VariableMappingData,
    binop: &BinOp,
    lvalue: &Expression,
    rvalue: &Expression,
) -> (res: Result<Expression, OverflowError>)
    ensures
        denoted(res) == overflow_check_spec(wp@, var.var_type@, *binop, lvalue@, rvalue@),
        wp@.well_formed() && lvalue@.well_formed() && rvalue@.well_formed() ==> (res matches Ok(
            precondition,
        ) ==> precondition@.well_formed()),
{
    match classify(var.var_type.as_str()) {
        None => Err(OverflowError::UnsupportedType),
        Some(kind) => {
            let condition = if kind.is_signed() {
                signed_overflow(binop, kind.width(), lvalue, rvalue)
            } else {
                unsigned_overflow(binop, lvalue, rvalue)
            };
            match condition {
                Ok(condition) => Ok(Expression::conjunction(wp.clone(), condition)),
                Err(error) => Err(error),
            }
        },
    }
}

} // verus!
