use sysy_lower::ast::{
    AddExp, AddOp, ConstExp, EqExp, EqOp, Exp, LAndExp, LOrExp, LVal, MulExp, MulOp, PrimaryExp,
    RelExp, RelOp, UnaryExp, UnaryOp,
};
use sysy_lower::consts::ConstEnv;
use sysy_lower::eval::{binary_value, fold, unary_value, EvalError, Evaluate, Operator};
use sysy_lower::text::decimal_string;

fn num(n: i32) -> UnaryExp {
    UnaryExp::PExp(PrimaryExp::Number(n))
}

fn var(name: &str) -> UnaryExp {
    UnaryExp::PExp(PrimaryExp::LVal(LVal { ident: name.to_string() }))
}

fn mul_of(u: UnaryExp) -> MulExp {
    MulExp::UExp(u)
}

fn add_of(m: MulExp) -> AddExp {
    AddExp::MExp(m)
}

fn rel_of(a: AddExp) -> RelExp {
    RelExp::AExp(a)
}

fn eq_of(r: RelExp) -> EqExp {
    EqExp::RExp(r)
}

fn land_of(e: EqExp) -> LAndExp {
    LAndExp::EExp(e)
}

fn exp_of(l: LAndExp) -> Exp {
    Exp { lorexp: Box::new(LOrExp::LAExp(l)) }
}

fn land_unary(u: UnaryExp) -> LAndExp {
    land_of(eq_of(rel_of(add_of(mul_of(u)))))
}

fn binary_mul(l: UnaryExp, op: MulOp, r: UnaryExp) -> MulExp {
    MulExp::MExp(Box::new(mul_of(l)), op, r)
}

fn env_with(pairs: &[(&str, i32)]) -> ConstEnv {
    let mut env = ConstEnv::new();
    for (name, value) in pairs {
        env.insert(name.to_string(), *value);
    }
    env
}

#[test]
fn decimal_string_of_edge_values() {
    assert_eq!(decimal_string(0), "0");
    assert_eq!(decimal_string(7), "7");
    assert_eq!(decimal_string(10), "10");
    assert_eq!(decimal_string(-1), "-1");
    assert_eq!(decimal_string(1234567890), "1234567890");
    assert_eq!(decimal_string(i32::MAX), "2147483647");
    assert_eq!(decimal_string(i32::MIN), "-2147483648");
}

#[test]
fn environment_get_and_overwrite() {
    let mut env = ConstEnv::new();
    assert_eq!(env.get(&"a".to_string()), None);
    assert!(!env.contains(&"a".to_string()));
    env.insert("a".to_string(), 1);
    env.insert("b".to_string(), 2);
    assert_eq!(env.get(&"a".to_string()), Some(1));
    assert_eq!(env.get(&"b".to_string()), Some(2));
    env.insert("a".to_string(), 3);
    assert_eq!(env.get(&"a".to_string()), Some(3));
    assert!(env.contains(&"b".to_string()));
    assert_eq!(env.get(&"c".to_string()), None);
}

#[test]
fn literal_folds_to_itself() {
    let env = ConstEnv::new();
    assert_eq!(num(42).eval(&env), Ok(Some(42)));
    assert_eq!(PrimaryExp::Number(-5).eval(&env), Ok(Some(-5)));
}

#[test]
fn bound_name_folds_to_its_value() {
    let env = env_with(&[("x", 9)]);
    assert_eq!(var("x").eval(&env), Ok(Some(9)));
    let e = binary_mul(var("x"), MulOp::Mul, num(2));
    assert_eq!(e.eval(&env), Ok(Some(18)));
}

#[test]
fn unbound_name_folds_to_none_at_any_depth() {
    let env = env_with(&[("x", 9)]);
    assert_eq!(var("y").eval(&env), Ok(None));
    let inner = exp_of(land_unary(var("y")));
    let nested = UnaryExp::UExp(
        UnaryOp::Neg,
        Box::new(UnaryExp::PExp(PrimaryExp::Exp(inner))),
    );
    assert_eq!(nested.eval(&env), Ok(None));
    let sum = AddExp::AExp(Box::new(add_of(mul_of(num(1)))), AddOp::Add, mul_of(nested));
    assert_eq!(sum.eval(&env), Ok(None));
    let l = LAndExp::LAExp(Box::new(land_unary(num(0))), eq_of(rel_of(sum)));
    assert_eq!(l.eval(&env), Ok(None));
    let c = ConstExp { exp: exp_of(land_unary(var("z"))) };
    assert_eq!(c.eval(&env), Ok(None));
}

#[test]
fn unary_operators() {
    assert_eq!(unary_value(&UnaryOp::Pos, 5), 5);
    assert_eq!(unary_value(&UnaryOp::Neg, 5), -5);
    assert_eq!(unary_value(&UnaryOp::Neg, i32::MIN), i32::MIN);
    assert_eq!(unary_value(&UnaryOp::Not, 0), 1);
    assert_eq!(unary_value(&UnaryOp::Not, 7), 0);
    assert_eq!(unary_value(&UnaryOp::Inv, 0), -1);
    assert_eq!(unary_value(&UnaryOp::Inv, 5), -6);
    assert_eq!(unary_value(&UnaryOp::Inv, i32::MIN), i32::MAX);
    let env = ConstEnv::new();
    let e = UnaryExp::UExp(UnaryOp::Not, Box::new(UnaryExp::UExp(UnaryOp::Neg, Box::new(num(3)))));
    assert_eq!(e.eval(&env), Ok(Some(0)));
}

#[test]
fn arithmetic_is_that_of_32_bit_words() {
    assert_eq!(binary_value(Operator::Add, 2, 3), 5);
    assert_eq!(binary_value(Operator::Add, i32::MAX, 1), i32::MIN);
    assert_eq!(binary_value(Operator::Sub, 2, 3), -1);
    assert_eq!(binary_value(Operator::Sub, i32::MIN, 1), i32::MAX);
    assert_eq!(binary_value(Operator::Mul, 6, 7), 42);
    assert_eq!(binary_value(Operator::Mul, 65536, 65536), 0);
    assert_eq!(binary_value(Operator::Mul, i32::MAX, 2), -2);
    assert_eq!(binary_value(Operator::Div, 7, 2), 3);
    assert_eq!(binary_value(Operator::Div, -7, 2), -3);
    assert_eq!(binary_value(Operator::Div, 7, -2), -3);
    assert_eq!(binary_value(Operator::Div, -7, -2), 3);
    assert_eq!(binary_value(Operator::Div, i32::MIN, -1), i32::MIN);
    assert_eq!(binary_value(Operator::Mod, 7, 2), 1);
    assert_eq!(binary_value(Operator::Mod, -7, 2), -1);
    assert_eq!(binary_value(Operator::Mod, 7, -2), 1);
    assert_eq!(binary_value(Operator::Mod, -7, -2), -1);
    assert_eq!(binary_value(Operator::Mod, i32::MIN, -1), 0);
}

#[test]
fn comparisons_give_zero_or_one() {
    assert_eq!(binary_value(Operator::Lt, 1, 2), 1);
    assert_eq!(binary_value(Operator::Lt, 2, 2), 0);
    assert_eq!(binary_value(Operator::Gt, 3, 2), 1);
    assert_eq!(binary_value(Operator::Gt, 2, 2), 0);
    assert_eq!(binary_value(Operator::Le, 2, 2), 1);
    assert_eq!(binary_value(Operator::Le, 3, 2), 0);
    assert_eq!(binary_value(Operator::Ge, 2, 2), 1);
    assert_eq!(binary_value(Operator::Ge, 1, 2), 0);
    assert_eq!(binary_value(Operator::Equ, 2, 2), 1);
    assert_eq!(binary_value(Operator::Equ, 1, 2), 0);
    assert_eq!(binary_value(Operator::Ne, 1, 2), 1);
    assert_eq!(binary_value(Operator::Ne, 2, 2), 0);
    assert_eq!(binary_value(Operator::And, 5, -3), 1);
    assert_eq!(binary_value(Operator::And, 5, 0), 0);
    assert_eq!(binary_value(Operator::Or, 0, 0), 0);
    assert_eq!(binary_value(Operator::Or, 0, 9), 1);
}

#[test]
fn layers_fold_through_the_whole_grammar() {
    let env = ConstEnv::new();
    // 1 + 2 * 3
    let product = binary_mul(num(2), MulOp::Mul, num(3));
    let sum = AddExp::AExp(Box::new(add_of(mul_of(num(1)))), AddOp::Add, product);
    assert_eq!(sum.eval(&env), Ok(Some(7)));
    // (1 + 2 * 3) <= 7
    let rel = RelExp::RExp(Box::new(rel_of(sum)), RelOp::Le, add_of(mul_of(num(7))));
    assert_eq!(rel.eval(&env), Ok(Some(1)));
    // ((1 + 2 * 3) <= 7) != 1
    let eq = EqExp::EExp(Box::new(eq_of(rel)), EqOp::Ne, rel_of(add_of(mul_of(num(1)))));
    assert_eq!(eq.eval(&env), Ok(Some(0)));
    // that && 5
    let land = LAndExp::LAExp(Box::new(land_of(eq)), eq_of(rel_of(add_of(mul_of(num(5))))));
    assert_eq!(land.eval(&env), Ok(Some(0)));
    // that || 5
    let lor = LOrExp::LOExp(Box::new(LOrExp::LAExp(land)), land_unary(num(5)));
    assert_eq!(lor.eval(&env), Ok(Some(1)));
    let exp = Exp { lorexp: Box::new(lor) };
    assert_eq!(exp.eval(&env), Ok(Some(1)));
}

#[test]
fn zero_divisor_is_an_error() {
    let env = ConstEnv::new();
    let d = binary_mul(num(1), MulOp::Div, num(0));
    assert_eq!(d.eval(&env), Err(EvalError::DivisionByZero));
    let m = binary_mul(num(1), MulOp::Mod, num(0));
    assert_eq!(m.eval(&env), Err(EvalError::DivisionByZero));
    let ok = binary_mul(num(0), MulOp::Mul, num(0));
    assert_eq!(ok.eval(&env), Ok(Some(0)));
}

#[test]
fn zero_divisor_fails_under_an_unbound_dividend() {
    let env = ConstEnv::new();
    let d = binary_mul(var("x"), MulOp::Div, num(0));
    assert_eq!(d.eval(&env), Err(EvalError::DivisionByZero));
    let z = env_with(&[("z", 0)]);
    let m = binary_mul(num(4), MulOp::Mod, var("z"));
    assert_eq!(m.eval(&z), Err(EvalError::DivisionByZero));
}

#[test]
fn logical_operators_fold_both_operands() {
    let env = ConstEnv::new();
    // 0 && (1 / 0): the right operand is folded although the left is false.
    let bad = eq_of(rel_of(add_of(binary_mul(num(1), MulOp::Div, num(0)))));
    let land = LAndExp::LAExp(Box::new(land_unary(num(0))), bad);
    assert_eq!(land.eval(&env), Err(EvalError::DivisionByZero));
    // 1 || (1 / 0)
    let bad = land_of(eq_of(rel_of(add_of(binary_mul(num(1), MulOp::Div, num(0))))));
    let lor = LOrExp::LOExp(Box::new(LOrExp::LAExp(land_unary(num(1)))), bad);
    assert_eq!(lor.eval(&env), Err(EvalError::DivisionByZero));
}

#[test]
fn fold_combines_operand_results() {
    assert_eq!(fold(Operator::Add, Ok(Some(1)), Ok(Some(2))), Ok(Some(3)));
    assert_eq!(fold(Operator::Add, Ok(None), Ok(Some(2))), Ok(None));
    assert_eq!(fold(Operator::Add, Ok(Some(1)), Ok(None)), Ok(None));
    assert_eq!(fold(Operator::Div, Ok(Some(1)), Ok(Some(0))), Err(EvalError::DivisionByZero));
    assert_eq!(fold(Operator::Mod, Ok(None), Ok(Some(0))), Err(EvalError::DivisionByZero));
    assert_eq!(fold(Operator::Mul, Ok(None), Ok(Some(0))), Ok(None));
    assert_eq!(
        fold(Operator::Sub, Err(EvalError::DivisionByZero), Ok(Some(0))),
        Err(EvalError::DivisionByZero)
    );
    assert_eq!(
        fold(Operator::Sub, Ok(None), Err(EvalError::DivisionByZero)),
        Err(EvalError::DivisionByZero)
    );
}

#[test]
fn operator_tags_of_the_layers() {
    assert_eq!(MulOp::Mul.operator(), Operator::Mul);
    assert_eq!(MulOp::Div.operator(), Operator::Div);
    assert_eq!(MulOp::Mod.operator(), Operator::Mod);
    assert_eq!(AddOp::Add.operator(), Operator::Add);
    assert_eq!(AddOp::Sub.operator(), Operator::Sub);
    assert_eq!(RelOp::Lt.operator(), Operator::Lt);
    assert_eq!(RelOp::Gt.operator(), Operator::Gt);
    assert_eq!(RelOp::Le.operator(), Operator::Le);
    assert_eq!(RelOp::Ge.operator(), Operator::Ge);
    assert_eq!(EqOp::Equ.operator(), Operator::Equ);
    assert_eq!(EqOp::Ne.operator(), Operator::Ne);
}

#[test]
fn environment_truncate_undoes_later_bindings() {
    let mut env = ConstEnv::new();
    assert_eq!(env.len(), 0);
    env.insert("a".to_string(), 1);
    env.insert("b".to_string(), 2);
    env.insert("a".to_string(), 3);
    assert_eq!(env.len(), 3);
    env.truncate(2);
    assert_eq!(env.len(), 2);
    assert_eq!(env.get(&"a".to_string()), Some(1));
    assert_eq!(env.get(&"b".to_string()), Some(2));
    env.truncate(0);
    assert_eq!(env.get(&"a".to_string()), None);
    assert_eq!(env.len(), 0);
}
