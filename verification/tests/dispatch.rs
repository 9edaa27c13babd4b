use overflow_wp::evaluate::{evaluate, is_true, Bindings, Computed};
use overflow_wp::expression::{BinaryOperator, Expression, VariableMappingData};
use overflow_wp::overflow::{
    overflow_check, signed_add, signed_div, signed_mul, signed_overflow, signed_sub, unsigned_add,
    unsigned_mul, unsigned_overflow, unsigned_sub, BinOp, OverflowError,
};

fn destination(var_type: &str) -> VariableMappingData {
    VariableMappingData { name: "result".to_string(), var_type: var_type.to_string() }
}

fn all_operators() -> Vec<BinOp> {
    vec![
        BinOp::Add,
        BinOp::Sub,
        BinOp::Mul,
        BinOp::Div,
        BinOp::Rem,
        BinOp::BitXor,
        BinOp::BitAnd,
        BinOp::BitOr,
        BinOp::Shl,
        BinOp::Shr,
        BinOp::Eq,
        BinOp::Lt,
        BinOp::Le,
        BinOp::Ne,
        BinOp::Ge,
        BinOp::Gt,
    ]
}

fn has_no_formula(op: BinOp) -> bool {
    !matches!(op, BinOp::Add | BinOp::Sub | BinOp::Mul | BinOp::Div | BinOp::Rem)
}

#[test]
fn check_conjoins_the_formula_onto_the_precondition() {
    let wp = Expression::variable("p", "i8");
    let l = Expression::variable("l", "i8");
    let r = Expression::variable("r", "i8");
    let signed = vec![("i8", 8u8), ("i16", 16u8), ("i32", 32u8), ("i64", 64u8)];
    for (name, size) in signed {
        let var = destination(name);
        assert_eq!(
            overflow_check(&wp, &var, &BinOp::Add, &l, &r),
            Ok(Expression::binary(BinaryOperator::And, wp.clone(), signed_add(size, &l, &r)))
        );
        assert_eq!(
            overflow_check(&wp, &var, &BinOp::Sub, &l, &r),
            Ok(Expression::binary(BinaryOperator::And, wp.clone(), signed_sub(size, &l, &r)))
        );
        assert_eq!(
            overflow_check(&wp, &var, &BinOp::Mul, &l, &r),
            Ok(Expression::binary(BinaryOperator::And, wp.clone(), signed_mul(&l, &r)))
        );
        assert_eq!(
            overflow_check(&wp, &var, &BinOp::Div, &l, &r),
            Ok(Expression::binary(BinaryOperator::And, wp.clone(), signed_div(size, &l, &r)))
        );
        assert_eq!(
            overflow_check(&wp, &var, &BinOp::Rem, &l, &r),
            Ok(Expression::binary(BinaryOperator::And, wp.clone(), signed_div(size, &l, &r)))
        );
    }
    for name in vec!["u8", "u16", "u32", "u64"] {
        let var = destination(name);
        assert_eq!(
            overflow_check(&wp, &var, &BinOp::Add, &l, &r),
            Ok(Expression::binary(BinaryOperator::And, wp.clone(), unsigned_add(&l, &r)))
        );
        assert_eq!(
            overflow_check(&wp, &var, &BinOp::Sub, &l, &r),
            Ok(Expression::binary(BinaryOperator::And, wp.clone(), unsigned_sub(&l, &r)))
        );
        assert_eq!(
            overflow_check(&wp, &var, &BinOp::Mul, &l, &r),
            Ok(Expression::binary(BinaryOperator::And, wp.clone(), unsigned_mul(&l, &r)))
        );
    }
}

#[test]
fn check_differs_from_its_arguments() {
    let wp = Expression::boolean_literal(true);
    let l = Expression::signed_literal(8, 1);
    let r = Expression::signed_literal(8, 2);
    let checked = overflow_check(&wp, &destination("i8"), &BinOp::Add, &l, &r).unwrap();
    assert_ne!(checked, wp);
    assert_ne!(checked, l);
    assert_ne!(checked, r);
}

#[test]
fn unsupported_type_gives_no_formula() {
    let wp = Expression::boolean_literal(true);
    let l = Expression::variable("l", "i8");
    let r = Expression::variable("r", "i8");
    for name in vec!["isize", "usize", "i128", "u128", "f32", "f64", "bool", "", "I32"] {
        for op in all_operators() {
            assert_eq!(
                overflow_check(&wp, &destination(name), &op, &l, &r),
                Err(OverflowError::UnsupportedType),
                "{:?} {:?}",
                name,
                op
            );
        }
    }
}

#[test]
fn unsupported_operator_gives_no_formula() {
    let wp = Expression::boolean_literal(true);
    let l = Expression::variable("l", "i8");
    let r = Expression::variable("r", "i8");
    for name in vec!["i8", "i16", "i32", "i64", "u8", "u16", "u32", "u64"] {
        for op in all_operators() {
            if has_no_formula(op) {
                assert_eq!(
                    overflow_check(&wp, &destination(name), &op, &l, &r),
                    Err(OverflowError::UnsupportedOperator),
                    "{:?} {:?}",
                    name,
                    op
                );
            }
        }
    }
}

#[test]
fn unsigned_division_is_an_invariant_violation() {
    let wp = Expression::boolean_literal(true);
    let l = Expression::variable("l", "u8");
    let r = Expression::variable("r", "u8");
    for name in vec!["u8", "u16", "u32", "u64"] {
        assert_eq!(
            overflow_check(&wp, &destination(name), &BinOp::Div, &l, &r),
            Err(OverflowError::InternalInvariantViolation)
        );
        assert_eq!(
            overflow_check(&wp, &destination(name), &BinOp::Rem, &l, &r),
            Err(OverflowError::InternalInvariantViolation)
        );
    }
    assert_eq!(
        unsigned_overflow(&BinOp::Div, &l, &r),
        Err(OverflowError::InternalInvariantViolation)
    );
    assert_eq!(
        unsigned_overflow(&BinOp::Rem, &l, &r),
        Err(OverflowError::InternalInvariantViolation)
    );
}

#[test]
fn signed_router_routes_by_operator() {
    let l = Expression::variable("l", "i32");
    let r = Expression::variable("r", "i32");
    assert_eq!(signed_overflow(&BinOp::Add, 32, &l, &r), Ok(signed_add(32, &l, &r)));
    assert_eq!(signed_overflow(&BinOp::Sub, 32, &l, &r), Ok(signed_sub(32, &l, &r)));
    assert_eq!(signed_overflow(&BinOp::Mul, 32, &l, &r), Ok(signed_mul(&l, &r)));
    assert_eq!(signed_overflow(&BinOp::Div, 32, &l, &r), Ok(signed_div(32, &l, &r)));
    assert_eq!(signed_overflow(&BinOp::Rem, 32, &l, &r), Ok(signed_div(32, &l, &r)));
    for op in all_operators() {
        if has_no_formula(op) {
            assert_eq!(
                signed_overflow(&op, 32, &l, &r),
                Err(OverflowError::UnsupportedOperator),
                "{:?}",
                op
            );
        }
    }
}

#[test]
fn unsigned_router_routes_by_operator() {
    let l = Expression::variable("l", "u16");
    let r = Expression::variable("r", "u16");
    assert_eq!(unsigned_overflow(&BinOp::Add, &l, &r), Ok(unsigned_add(&l, &r)));
    assert_eq!(unsigned_overflow(&BinOp::Sub, &l, &r), Ok(unsigned_sub(&l, &r)));
    assert_eq!(unsigned_overflow(&BinOp::Mul, &l, &r), Ok(unsigned_mul(&l, &r)));
    for op in all_operators() {
        if has_no_formula(op) {
            assert_eq!(
                unsigned_overflow(&op, &l, &r),
                Err(OverflowError::UnsupportedOperator),
                "{:?}",
                op
            );
        }
    }
}

#[test]
fn a_false_precondition_stays_false() {
    let wp = Expression::boolean_literal(false);
    let l = Expression::signed_literal(8, 1);
    let r = Expression::signed_literal(8, 2);
    let checked = overflow_check(&wp, &destination("i8"), &BinOp::Add, &l, &r).unwrap();
    assert_eq!(evaluate(&checked, &Bindings::new()), Some(Computed::Truth(false)));
}

#[test]
fn a_true_precondition_becomes_the_safety_of_the_operation() {
    let wp = Expression::boolean_literal(true);
    let l = Expression::variable("l", "i32");
    let r = Expression::variable("r", "i32");
    let checked = overflow_check(&wp, &destination("i32"), &BinOp::Mul, &l, &r).unwrap();
    let mut env = Bindings::new();
    env.bind("l", 46341);
    env.bind("r", 46341);
    assert!(!is_true(&checked, &env));
    env.bind("r", 46340);
    assert!(is_true(&checked, &env));
    env.bind("l", -46341);
    env.bind("r", 46341);
    assert!(!is_true(&checked, &env));
    env.bind("l", -65536);
    env.bind("r", 32768);
    assert!(is_true(&checked, &env));
}

#[test]
fn remainder_shares_the_guard_of_division() {
    let wp = Expression::boolean_literal(true);
    let l = Expression::variable("l", "i16");
    let r = Expression::variable("r", "i16");
    let checked = overflow_check(&wp, &destination("i16"), &BinOp::Rem, &l, &r).unwrap();
    let mut env = Bindings::new();
    env.bind("l", -32768);
    env.bind("r", -1);
    assert!(!is_true(&checked, &env));
    env.bind("r", 1);
    assert!(is_true(&checked, &env));
    env.bind("r", 0);
    assert!(is_true(&checked, &env));
}
