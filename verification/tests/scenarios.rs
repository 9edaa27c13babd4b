use overflow_wp::evaluate::{evaluate, is_true, Bindings, Computed};
use overflow_wp::expression::{Expression, VariableMappingData};
use overflow_wp::overflow::{
    overflow_check, signed_add, signed_div, signed_sub, unsigned_add, unsigned_sub, BinOp,
};

fn safe(check: &Expression, env: &Bindings) -> bool {
    match evaluate(check, env) {
        Some(Computed::Truth(truth)) => truth,
        other => panic!("no truth value: {:?}", other),
    }
}

fn signed_operands(size: u8, l: i64, r: i64) -> (Expression, Expression) {
    (Expression::signed_literal(size, l), Expression::signed_literal(size, r))
}

fn unsigned_operands(var_type: &str, l: i128, r: i128) -> (Expression, Expression, Bindings) {
    let mut env = Bindings::new();
    env.bind("l", l);
    env.bind("r", r);
    (Expression::variable("l", var_type), Expression::variable("r", var_type), env)
}

#[test]
fn signed_add_width_8() {
    let none = Bindings::new();
    let (l, r) = signed_operands(8, 100, 100);
    assert!(!safe(&signed_add(8, &l, &r), &none));
    let (l, r) = signed_operands(8, 100, 27);
    assert!(safe(&signed_add(8, &l, &r), &none));
    let (l, r) = signed_operands(8, -100, -100);
    assert!(!safe(&signed_add(8, &l, &r), &none));
    let (l, r) = signed_operands(8, -50, 10);
    assert!(safe(&signed_add(8, &l, &r), &none));
}

#[test]
fn signed_add_width_8_at_the_edges() {
    let none = Bindings::new();
    let (l, r) = signed_operands(8, 100, 28);
    assert!(!safe(&signed_add(8, &l, &r), &none));
    let (l, r) = signed_operands(8, -100, -28);
    assert!(safe(&signed_add(8, &l, &r), &none));
    let (l, r) = signed_operands(8, -100, -29);
    assert!(!safe(&signed_add(8, &l, &r), &none));
    let (l, r) = signed_operands(8, 127, -128);
    assert!(safe(&signed_add(8, &l, &r), &none));
    let (l, r) = signed_operands(8, 0, 0);
    assert!(safe(&signed_add(8, &l, &r), &none));
}

#[test]
fn signed_sub_width_8() {
    let none = Bindings::new();
    let (l, r) = signed_operands(8, -100, 50);
    assert!(!safe(&signed_sub(8, &l, &r), &none));
    let (l, r) = signed_operands(8, 100, -50);
    assert!(!safe(&signed_sub(8, &l, &r), &none));
    let (l, r) = signed_operands(8, 10, 5);
    assert!(safe(&signed_sub(8, &l, &r), &none));
}

#[test]
fn signed_sub_width_8_at_the_edges() {
    let none = Bindings::new();
    let (l, r) = signed_operands(8, -100, 28);
    assert!(safe(&signed_sub(8, &l, &r), &none));
    let (l, r) = signed_operands(8, -100, 29);
    assert!(!safe(&signed_sub(8, &l, &r), &none));
    let (l, r) = signed_operands(8, 100, -27);
    assert!(safe(&signed_sub(8, &l, &r), &none));
    let (l, r) = signed_operands(8, 100, -28);
    assert!(!safe(&signed_sub(8, &l, &r), &none));
    let (l, r) = signed_operands(8, 0, -128);
    assert!(!safe(&signed_sub(8, &l, &r), &none));
    let (l, r) = signed_operands(8, -1, -128);
    assert!(safe(&signed_sub(8, &l, &r), &none));
    let (l, r) = signed_operands(8, -128, -128);
    assert!(safe(&signed_sub(8, &l, &r), &none));
}

#[test]
fn signed_div_trap_width_32() {
    let none = Bindings::new();
    let least = i64::from(i32::MIN);
    let (l, r) = signed_operands(32, least, -1);
    assert!(!safe(&signed_div(32, &l, &r), &none));
    let (l, r) = signed_operands(32, least, 1);
    assert!(safe(&signed_div(32, &l, &r), &none));
    let (l, r) = signed_operands(32, 10, -1);
    assert!(safe(&signed_div(32, &l, &r), &none));
}

#[test]
fn signed_div_trap_of_the_other_widths() {
    let none = Bindings::new();
    let (l, r) = signed_operands(8, -128, -1);
    assert!(!safe(&signed_div(8, &l, &r), &none));
    let (l, r) = signed_operands(8, -127, -1);
    assert!(safe(&signed_div(8, &l, &r), &none));
    let (l, r) = signed_operands(16, -32768, -1);
    assert!(!safe(&signed_div(16, &l, &r), &none));
    let (l, r) = signed_operands(16, -128, -1);
    assert!(safe(&signed_div(16, &l, &r), &none));
    let (l, r) = signed_operands(64, i64::MIN, -1);
    assert!(!safe(&signed_div(64, &l, &r), &none));
    let (l, r) = signed_operands(64, i64::MIN, -2);
    assert!(safe(&signed_div(64, &l, &r), &none));
    let (l, r) = signed_operands(64, i64::from(i32::MIN), -1);
    assert!(safe(&signed_div(64, &l, &r), &none));
}

#[test]
fn unsigned_add_width_8() {
    let (l, r, env) = unsigned_operands("u8", 250, 10);
    assert!(!safe(&unsigned_add(&l, &r), &env));
    let (l, r, env) = unsigned_operands("u8", 100, 50);
    assert!(safe(&unsigned_add(&l, &r), &env));
}

#[test]
fn unsigned_add_width_8_wraps_to_four() {
    let (l, r, env) = unsigned_operands("u8", 250, 10);
    let sum = Expression::binary(
        overflow_wp::expression::BinaryOperator::Addition,
        l.clone(),
        r.clone(),
    );
    assert_eq!(
        evaluate(&sum, &env),
        Some(Computed::Bits { signed: false, width: 8, value: 4 })
    );
}

#[test]
fn unsigned_sub_width_8() {
    let (l, r, env) = unsigned_operands("u8", 5, 10);
    assert!(!safe(&unsigned_sub(&l, &r), &env));
    let (l, r, env) = unsigned_operands("u8", 10, 5);
    assert!(safe(&unsigned_sub(&l, &r), &env));
}

#[test]
fn unsigned_sub_width_8_wraps_to_251() {
    let (l, r, env) = unsigned_operands("u8", 5, 10);
    let difference = Expression::binary(
        overflow_wp::expression::BinaryOperator::Subtraction,
        l.clone(),
        r.clone(),
    );
    assert_eq!(
        evaluate(&difference, &env),
        Some(Computed::Bits { signed: false, width: 8, value: 251 })
    );
}

#[test]
fn unsigned_sub_compares_with_the_minuend() {
    // 10 - 2 = 8 is in range, though 8 > 2.
    let (l, r, env) = unsigned_operands("u8", 10, 2);
    assert!(safe(&unsigned_sub(&l, &r), &env));
    let (l, r, env) = unsigned_operands("u8", 200, 100);
    assert!(safe(&unsigned_sub(&l, &r), &env));
    let (l, r, env) = unsigned_operands("u8", 0, 0);
    assert!(safe(&unsigned_sub(&l, &r), &env));
    let (l, r, env) = unsigned_operands("u8", 0, 1);
    assert!(!safe(&unsigned_sub(&l, &r), &env));
}

#[test]
fn scenarios_through_the_check() {
    let wp = Expression::boolean_literal(true);
    let i8_result = VariableMappingData { name: "x".to_string(), var_type: "i8".to_string() };
    let u8_result = VariableMappingData { name: "x".to_string(), var_type: "u8".to_string() };
    let i32_result = VariableMappingData { name: "x".to_string(), var_type: "i32".to_string() };
    let none = Bindings::new();

    let (l, r) = signed_operands(8, 100, 100);
    assert!(!is_true(&overflow_check(&wp, &i8_result, &BinOp::Add, &l, &r).unwrap(), &none));
    let (l, r) = signed_operands(8, 100, 27);
    assert!(is_true(&overflow_check(&wp, &i8_result, &BinOp::Add, &l, &r).unwrap(), &none));
    let (l, r) = signed_operands(8, -100, 50);
    assert!(!is_true(&overflow_check(&wp, &i8_result, &BinOp::Sub, &l, &r).unwrap(), &none));
    let (l, r) = signed_operands(8, 10, 5);
    assert!(is_true(&overflow_check(&wp, &i8_result, &BinOp::Sub, &l, &r).unwrap(), &none));
    let (l, r) = signed_operands(32, i64::from(i32::MIN), -1);
    assert!(!is_true(&overflow_check(&wp, &i32_result, &BinOp::Div, &l, &r).unwrap(), &none));
    let (l, r) = signed_operands(32, i64::from(i32::MIN), 1);
    assert!(is_true(&overflow_check(&wp, &i32_result, &BinOp::Div, &l, &r).unwrap(), &none));
    let (l, r, env) = unsigned_operands("u8", 250, 10);
    assert!(!is_true(&overflow_check(&wp, &u8_result, &BinOp::Add, &l, &r).unwrap(), &env));
    let (l, r, env) = unsigned_operands("u8", 100, 50);
    assert!(is_true(&overflow_check(&wp, &u8_result, &BinOp::Add, &l, &r).unwrap(), &env));
    let (l, r, env) = unsigned_operands("u8", 5, 10);
    assert!(!is_true(&overflow_check(&wp, &u8_result, &BinOp::Sub, &l, &r).unwrap(), &env));
    let (l, r, env) = unsigned_operands("u8", 10, 5);
    assert!(is_true(&overflow_check(&wp, &u8_result, &BinOp::Sub, &l, &r).unwrap(), &env));
}
