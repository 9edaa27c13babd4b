//! Each safety formula is true exactly where the exact result of its
//! operation can be represented.

use vstd::prelude::*;

use crate::expression::{BinaryOperator, Formula};
use crate::kind::{
    in_range, kind_of, lemma_kind_of, lemma_ranges, max_value, min_value, supported_width, wrap,
    IntKind,
};
use crate::overflow::{
    difference, division_trap, negative, non_negative, overflow_check_spec, safety_formula,
    signed_add_formula, signed_div_formula, signed_mul_formula, signed_sub_formula, sum,
    unsigned_add_formula, unsigned_mul_formula, unsigned_sub_formula, BinOp,
};
use crate::semantics::{
    combine, eval, holds, lemma_eval_in_range, lemma_wrap_near, operands, Assignment, Value,
};

verus! {

/// The value of a comparison with zero, from that of the compared term.
proof fn lemma_sign_tests(width: nat, term: Formula, env: Assignment)
    requires
        eval(term, env) matches Some(value) && value.has_sort(true, width),
    ensures
        eval(non_negative(width, term), env) == Some(
            Value::Truth(eval(term, env).unwrap().number() >= 0),
        ),
        eval(negative(width, term), env) == Some(
            Value::Truth(eval(term, env).unwrap().number() < 0),
        ),
{
    lemma_eval_in_range(term, env);
    lemma_ranges();
    assert(eval(Formula::signed_literal(width, 0), env) == Some(
        Value::Bits { signed: true, width, value: 0 },
    ));
}

/// The value of a sum and of a difference, from those of the operands.
proof fn lemma_arithmetic(
    signed: bool,
    width: nat,
    left: Formula,
    right: Formula,
    env: Assignment,
)
    requires
        operands(left, right, env, signed, width) is Some,
    ensures
        ({
            let (a, b) = operands(left, right, env, signed, width).unwrap();
            &&& eval(sum(left, right), env) == Some(
                Value::Bits { signed, width, value: wrap(signed, width, a + b) },
            )
            &&& eval(difference(left, right), env) == Some(
                Value::Bits { signed, width, value: wrap(signed, width, a - b) },
            )
            &&& supported_width(width)
            &&& in_range(signed, width, a)
            &&& in_range(signed, width, b)
        }),
{
    lemma_eval_in_range(left, env);
    lemma_eval_in_range(right, env);
}

/// Signed addition: under an assignment that gives both operands
/// two's-complement values of `width` bits, the safety formula is true if
/// and only if the exact sum of the two lies in the range of that width.
pub proof fn law_signed_add_exact(
    width: nat,
    left: Formula,
    right: Formula,
    env: Assignment,
    a: int,
    b: int,
)
    requires
        operands(left, right, env, true, width) == Some((a, b)),
    ensures
        eval(signed_add_formula(width, left, right), env) == Some(
            Value::Truth(in_range(true, width, a + b)),
        ),
{
    lemma_arithmetic(true, width, left, right, env);
    lemma_sign_tests(width, left, env);
    lemma_sign_tests(width, right, env);
    lemma_sign_tests(width, sum(left, right), env);
    lemma_wrap_near(true, width, a + b);
    lemma_ranges();
    let both_up = Formula::conjunction(non_negative(width, left), non_negative(width, right));
    let either_down = Formula::disjunction(negative(width, left), negative(width, right));
    let both_down = Formula::conjunction(negative(width, left), negative(width, right));
    let wrapped = wrap(true, width, a + b);
    assert(eval(both_up, env) == Some(Value::Truth(a >= 0 && b >= 0)));
    assert(eval(either_down, env) == Some(Value::Truth(a < 0 || b < 0)));
    assert(eval(both_down, env) == Some(Value::Truth(a < 0 && b < 0)));
    let upper = Formula::implication(both_up, non_negative(width, sum(left, right)));
    assert(eval(upper, env) == Some(Value::Truth((a >= 0 && b >= 0) ==> wrapped >= 0)));
    let inner = Formula::implication(both_down, negative(width, sum(left, right)));
    assert(eval(inner, env) == Some(Value::Truth((a < 0 && b < 0) ==> wrapped < 0)));
    let lower = Formula::implication(either_down, inner);
    assert(eval(lower, env) == Some(
        Value::Truth((a < 0 || b < 0) ==> ((a < 0 && b < 0) ==> wrapped < 0)),
    ));
}

/// Signed subtraction: under an assignment that gives both operands
/// two's-complement values of `width` bits, the safety formula is true if
/// and only if the exact difference of the two lies in the range of that
/// width.
pub proof fn law_signed_sub_exact(
    width: nat,
    left: Formula,
    right: Formula,
    env: Assignment,
    a: int,
    b: int,
)
    requires
        operands(left, right, env, true, width) == Some((a, b)),
    ensures
        eval(signed_sub_formula(width, left, right), env) == Some(
            Value::Truth(in_range(true, width, a - b)),
        ),
{
    lemma_arithmetic(true, width, left, right, env);
    lemma_sign_tests(width, left, env);
    lemma_sign_tests(width, right, env);
    lemma_sign_tests(width, difference(left, right), env);
    lemma_wrap_near(true, width, a - b);
    lemma_ranges();
    let up_down = Formula::conjunction(non_negative(width, left), negative(width, right));
    let down_or_up = Formula::disjunction(negative(width, left), non_negative(width, right));
    let down_up = Formula::conjunction(negative(width, left), non_negative(width, right));
    let wrapped = wrap(true, width, a - b);
    assert(eval(up_down, env) == Some(Value::Truth(a >= 0 && b < 0)));
    assert(eval(down_or_up, env) == Some(Value::Truth(a < 0 || b >= 0)));
    assert(eval(down_up, env) == Some(Value::Truth(a < 0 && b >= 0)));
    let upper = Formula::implication(up_down, non_negative(width, difference(left, right)));
    assert(eval(upper, env) == Some(Value::Truth((a >= 0 && b < 0) ==> wrapped >= 0)));
    let inner = Formula::implication(down_up, negative(width, difference(left, right)));
    assert(eval(inner, env) == Some(Value::Truth((a < 0 && b >= 0) ==> wrapped < 0)));
    let lower = Formula::implication(down_or_up, inner);
    assert(eval(lower, env) == Some(
        Value::Truth((a < 0 || b >= 0) ==> ((a < 0 && b >= 0) ==> wrapped < 0)),
    ));
}

/// Signed multiplication: under an assignment that gives both operands
/// two's-complement values of `width` bits, the safety formula is true if
/// and only if the exact product of the two lies in the range of that width.
pub proof fn law_signed_mul_exact(
    width: nat,
    left: Formula,
    right: Formula,
    env: Assignment,
    a: int,
    b: int,
)
    requires
        operands(left, right, env, true, width) == Some((a, b)),
    ensures
        eval(signed_mul_formula(left, right), env) == Some(
            Value::Truth(in_range(true, width, a * b)),
        ),
{
    let above = Formula::binary(
        BinaryOperator::SignedMultiplicationDoesNotOverflow,
        left,
        right,
    );
    let below = Formula::binary(
        BinaryOperator::SignedMultiplicationDoesNotUnderflow,
        left,
        right,
    );
    assert(eval(above, env) == Some(Value::Truth(a * b <= max_value(true, width))));
    assert(eval(below, env) == Some(Value::Truth(a * b >= min_value(true, width))));
}

/// Signed division and remainder: under an assignment that gives both
/// operands two's-complement values of `width` bits, the safety formula is
/// false if and only if the dividend is the least value of that width and
/// the divisor is `-1`.
pub proof fn law_signed_div_exact(
    width: nat,
    left: Formula,
    right: Formula,
    env: Assignment,
    a: int,
    b: int,
)
    requires
        operands(left, right, env, true, width) == Some((a, b)),
    ensures
        eval(signed_div_formula(width, left, right), env) == Some(
            Value::Truth(!(a == min_value(true, width) && b == -1)),
        ),
{
    lemma_arithmetic(true, width, left, right, env);
    lemma_ranges();
    let least = Formula::signed_literal(width, min_value(true, width));
    let minus_one = Formula::signed_literal(width, -1);
    assert(eval(least, env) == Some(
        Value::Bits { signed: true, width, value: min_value(true, width) },
    ));
    assert(eval(minus_one, env) == Some(Value::Bits { signed: true, width, value: -1 }));
    let at_least = Formula::binary(BinaryOperator::Equal, left, least);
    let by_minus_one = Formula::binary(BinaryOperator::Equal, right, minus_one);
    assert(eval(at_least, env) == Some(Value::Truth(a == min_value(true, width))));
    assert(eval(by_minus_one, env) == Some(Value::Truth(b == -1)));
    let trap = division_trap(width, left, right);
    let trapping = a == min_value(true, width) && b == -1;
    assert(eval(trap, env) == Some(Value::Truth(trapping)));
    assert(eval(Formula::negation(trap), env) == Some(Value::Truth(!trapping)));
    assert(eval(Formula::Boolean(false), env) == Some(Value::Truth(false)));
    assert(eval(Formula::Boolean(true), env) == Some(Value::Truth(true)));
    let first = Formula::implication(trap, Formula::Boolean(false));
    let second = Formula::implication(Formula::negation(trap), Formula::Boolean(true));
    assert(eval(first, env) == Some(Value::Truth(!trapping)));
    assert(eval(second, env) == Some(Value::Truth(true)));
}

/// Unsigned addition: under an assignment that gives both operands values
/// of `width` bits without a sign, the safety formula is true if and only if
/// the exact sum of the two lies in the range of that width.
pub proof fn law_unsigned_add_exact(
    width: nat,
    left: Formula,
    right: Formula,
    env: Assignment,
    a: int,
    b: int,
)
    requires
        operands(left, right, env, false, width) == Some((a, b)),
    ensures
        eval(unsigned_add_formula(left, right), env) == Some(
            Value::Truth(in_range(false, width, a + b)),
        ),
{
    lemma_arithmetic(false, width, left, right, env);
    lemma_wrap_near(false, width, a + b);
    lemma_ranges();
}

/// Unsigned subtraction: under an assignment that gives both operands values
/// of `width` bits without a sign, the safety formula is true if and only if
/// the exact difference of the two lies in the range of that width.
pub proof fn law_unsigned_sub_exact(
    width: nat,
    left: Formula,
    right: Formula,
    env: Assignment,
    a: int,
    b: int,
)
    requires
        operands(left, right, env, false, width) == Some((a, b)),
    ensures
        eval(unsigned_sub_formula(left, right), env) == Some(
            Value::Truth(in_range(false, width, a - b)),
        ),
{
    lemma_arithmetic(false, width, left, right, env);
    lemma_wrap_near(false, width, a - b);
    lemma_ranges();
}

/// Unsigned multiplication: under an assignment that gives both operands
/// values of `width` bits without a sign, the safety formula is true if and
/// only if the exact product of the two lies in the range of that width.
pub proof fn law_unsigned_mul_exact(
    width: nat,
    left: Formula,
    right: Formula,
    env: Assignment,
    a: int,
    b: int,
)
    requires
        operands(left, right, env, false, width) == Some((a, b)),
    ensures
        eval(unsigned_mul_formula(left, right), env) == Some(
            Value::Truth(in_range(false, width, a * b)),
        ),
{
    lemma_arithmetic(false, width, left, right, env);
    vstd::arithmetic::mul::lemma_mul_nonnegative(a, b);
}

/// The distance of an integer from zero.
pub open spec fn magnitude(x: int) -> int {
    if x < 0 {
        -x
    } else {
        x
    }
}

/// The quotient of the machine's division, which rounds toward zero.
pub open spec fn truncated_quotient(a: int, b: int) -> int
    recommends
        b != 0,
{
    if (a < 0) == (b < 0) {
        magnitude(a) / magnitude(b)
    } else {
        -(magnitude(a) / magnitude(b))
    }
}

/// The remainder that the machine's division leaves.
pub open spec fn truncated_remainder(a: int, b: int) -> int
    recommends
        b != 0,
{
    a - b * truncated_quotient(a, b)
}

/// The result of an arithmetic operator on unbounded integers.
pub open spec fn exact_result(op: BinOp, a: int, b: int) -> int
    recommends
        op == BinOp::Div || op == BinOp::Rem ==> b != 0,
{
    match op {
        BinOp::Add => a + b,
        BinOp::Sub => a - b,
        BinOp::Mul => a * b,
        BinOp::Div => truncated_quotient(a, b),
        BinOp::Rem => truncated_remainder(a, b),
        _ => 0,
    }
}

/// Whether a two's-complement division of `width` bits traps on overflow.
pub open spec fn traps(width: nat, a: int, b: int) -> bool {
    a == min_value(true, width) && b == -1
}

/// The truncated quotient of two `width`-bit two's-complement integers can
/// be represented in `width` bits unless the division traps.
pub proof fn lemma_quotient_in_range(width: nat, a: int, b: int)
    requires
        supported_width(width),
        in_range(true, width, a),
        in_range(true, width, b),
        b != 0,
    ensures
        in_range(true, width, truncated_quotient(a, b)) <==> !traps(width, a, b),
{
    lemma_ranges();
    let m = magnitude(a);
    let d = magnitude(b);
    vstd::arithmetic::div_mod::lemma_div_pos_is_pos(m, d);
    vstd::arithmetic::div_mod::lemma_div_nonincreasing(m, d);
    if d == 1 {
        vstd::arithmetic::div_mod::lemma_div_basics(m);
    } else if m > 0 {
        vstd::arithmetic::div_mod::lemma_div_decreases(m, d);
    }
}

/// The truncated remainder of two `width`-bit two's-complement integers can
/// be represented in `width` bits.
pub proof fn lemma_remainder_in_range(width: nat, a: int, b: int)
    requires
        supported_width(width),
        in_range(true, width, a),
        in_range(true, width, b),
        b != 0,
    ensures
        in_range(true, width, truncated_remainder(a, b)),
{
    lemma_ranges();
    let m = magnitude(a);
    let d = magnitude(b);
    let q = m / d;
    vstd::arithmetic::div_mod::lemma_fundamental_div_mod(m, d);
    vstd::arithmetic::div_mod::lemma_mod_bound(m, d);
    assert(m == d * q + m % d);
    let r = truncated_remainder(a, b);
    assert(r == if a < 0 {
        -(m % d)
    } else {
        m % d
    }) by (nonlinear_arith)
        requires
            m == magnitude(a),
            d == magnitude(b),
            b != 0,
            q == m / d,
            m == d * q + m % d,
            r == a - b * truncated_quotient(a, b),
    ;
}

/// Under an assignment that gives both operands the values `a` and `b` of
/// the type `kind`, the safety formula of a supported operator is true if
/// and only if the exact result of the operation on `a` and `b` can be
/// represented in the type.
///
/// A division by zero has no result and is left out. So is the remainder of
/// a division that traps: remainder has the formula of division, which is
/// false there, though the remainder, zero, can be represented.
pub proof fn law_safety_exact(
    kind: IntKind,
    op: BinOp,
    left: Formula,
    right: Formula,
    env: Assignment,
    a: int,
    b: int,
)
    requires
        safety_formula(kind, op, left, right) is Ok,
        operands(left, right, env, kind.signed(), kind.bits()) == Some((a, b)),
        op == BinOp::Div || op == BinOp::Rem ==> b != 0,
        op == BinOp::Rem ==> !traps(kind.bits(), a, b),
    ensures
        eval(safety_formula(kind, op, left, right).unwrap(), env) == Some(
            Value::Truth(kind.holds(exact_result(op, a, b))),
        ),
{
    let width = kind.bits();
    lemma_eval_in_range(left, env);
    lemma_eval_in_range(right, env);
    if kind.signed() {
        law_signed_add_exact(width, left, right, env, a, b);
        law_signed_sub_exact(width, left, right, env, a, b);
        law_signed_mul_exact(width, left, right, env, a, b);
        law_signed_div_exact(width, left, right, env, a, b);
        if b != 0 {
            lemma_quotient_in_range(width, a, b);
            lemma_remainder_in_range(width, a, b);
        }
    } else {
        law_unsigned_add_exact(width, left, right, env, a, b);
        law_unsigned_sub_exact(width, left, right, env, a, b);
        law_unsigned_mul_exact(width, left, right, env, a, b);
    }
}

/// Division and remainder are asked for of two's-complement types only, and
/// under an assignment that gives both operands the values `a` and `b` of
/// the type, their safety formula is false if and only if the division
/// traps. It is true where the divisor is zero.
pub proof fn law_division_guard(
    kind: IntKind,
    op: BinOp,
    left: Formula,
    right: Formula,
    env: Assignment,
    a: int,
    b: int,
)
    requires
        op == BinOp::Div || op == BinOp::Rem,
        safety_formula(kind, op, left, right) is Ok,
        operands(left, right, env, kind.signed(), kind.bits()) == Some((a, b)),
    ensures
        kind.signed(),
        eval(safety_formula(kind, op, left, right).unwrap(), env) == Some(
            Value::Truth(!traps(kind.bits(), a, b)),
        ),
{
    law_signed_div_exact(kind.bits(), left, right, env, a, b);
}

/// An operand that is a variable of the type `kind`.
pub open spec fn variable_of(kind: IntKind, name: Seq<char>) -> Formula {
    Formula::Variable { name, var_type: kind.name() }
}

/// The assignment that gives the variable `l` the value `a` and the
/// variable `r` the value `b`.
pub open spec fn pair(a: int, b: int) -> Assignment {
    Map::<Seq<char>, int>::empty().insert("l"@, a).insert("r"@, b)
}

/// For every supported type and operator and every two values `a` and `b`
/// of the type: the safety formula of `l op r`, for variables `l` and `r`
/// of the type that hold `a` and `b`, is true if and only if the exact
/// result of the operation on `a` and `b` can be represented in the type.
///
/// A division by zero and the remainder of a division that traps are left
/// out, as in `law_safety_exact`.
pub proof fn law_safety_exact_on_values(kind: IntKind, op: BinOp, a: int, b: int)
    requires
        kind.holds(a),
        kind.holds(b),
        safety_formula(kind, op, variable_of(kind, "l"@), variable_of(kind, "r"@)) is Ok,
        op == BinOp::Div || op == BinOp::Rem ==> b != 0,
        op == BinOp::Rem ==> !traps(kind.bits(), a, b),
    ensures
        eval(
            safety_formula(kind, op, variable_of(kind, "l"@), variable_of(kind, "r"@)).unwrap(),
            pair(a, b),
        ) == Some(Value::Truth(kind.holds(exact_result(op, a, b)))),
{
    let left = variable_of(kind, "l"@);
    let right = variable_of(kind, "r"@);
    let env = pair(a, b);
    lemma_kind_of(kind.name(), kind);
    reveal_strlit("l");
    reveal_strlit("r");
    assert("l"@[0] != "r"@[0]);
    assert(env.contains_key("l"@) && env["l"@] == a);
    assert(env.contains_key("r"@) && env["r"@] == b);
    assert(eval(left, env) == Some(
        Value::Bits { signed: kind.signed(), width: kind.bits(), value: a },
    ));
    assert(eval(right, env) == Some(
        Value::Bits { signed: kind.signed(), width: kind.bits(), value: b },
    ));
    law_safety_exact(kind, op, left, right, env, a, b);
}

/// What `overflow_check` adds to a precondition: under an assignment that
/// gives both operands the values `a` and `b` of the declared type, the new
/// precondition is true if and only if the old one is true and the exact
/// result of the operation on `a` and `b` can be represented in the type.
///
/// A division by zero and the remainder of a division that traps are left
/// out, as in `law_safety_exact`.
pub proof fn law_overflow_check_exact(
    wp: Formula,
    var_type: Seq<char>,
    op: BinOp,
    left: Formula,
    right: Formula,
    env: Assignment,
    a: int,
    b: int,
)
    requires
        overflow_check_spec(wp, var_type, op, left, right) is Ok,
        operands(
            left,
            right,
            env,
            kind_of(var_type).unwrap().signed(),
            kind_of(var_type).unwrap().bits(),
        ) == Some((a, b)),
        op == BinOp::Div || op == BinOp::Rem ==> b != 0,
        op == BinOp::Rem ==> !traps(kind_of(var_type).unwrap().bits(), a, b),
    ensures
        holds(overflow_check_spec(wp, var_type, op, left, right).unwrap(), env) == (holds(
            wp,
            env,
        ) && kind_of(var_type).unwrap().holds(exact_result(op, a, b))),
{
    let kind = kind_of(var_type).unwrap();
    law_safety_exact(kind, op, left, right, env, a, b);
    let condition = safety_formula(kind, op, left, right).unwrap();
    assert(eval(Formula::conjunction(wp, condition), env) == combine(
        BinaryOperator::And,
        eval(wp, env),
        eval(condition, env),
    ));
}

/// A check never hands the precondition back as it was, and never weakens
/// it: under every assignment under which the new precondition is true, the
/// old one is true.
pub proof fn law_check_strengthens(
    wp: Formula,
    var_type: Seq<char>,
    op: BinOp,
    left: Formula,
    right: Formula,
    env: Assignment,
)
    requires
        overflow_check_spec(wp, var_type, op, left, right) is Ok,
    ensures
        overflow_check_spec(wp, var_type, op, left, right).unwrap() != wp,
        holds(overflow_check_spec(wp, var_type, op, left, right).unwrap(), env) ==> holds(wp, env),
{
    let precondition = overflow_check_spec(wp, var_type, op, left, right).unwrap();
    let condition = safety_formula(kind_of(var_type).unwrap(), op, left, right).unwrap();
    assert(precondition == Formula::conjunction(wp, condition));
    if precondition == wp {
        // A tree is not one of its own branches.
        assert(decreases_to!(wp => *wp->Binary_left));
    }
    assert(eval(precondition, env) == combine(
        BinaryOperator::And,
        eval(wp, env),
        eval(condition, env),
    ));
}

} // verus!
