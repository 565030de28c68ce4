//! Compile-time folding of expressions to 32-bit literals.

use vstd::prelude::*;
use crate::ast::{
    AddExp, AddOp, ConstExp, EqExp, EqOp, Exp, LAndExp, LOrExp, MulExp, MulOp, PrimaryExp, RelExp,
    RelOp, UnaryExp, UnaryOp,
};
use crate::consts::{lookup, ConstEnv};

verus! {

/// Why an expression cannot be folded at all.
#[derive(Debug, Clone, Copy, PartialEq, Eq, Structural)]
pub enum EvalError {
    /// A division or remainder whose divisor folded to zero.
    DivisionByZero,
}

/// The binary operators of the language, one tag for all layers.
#[derive(Debug, Clone, Copy, PartialEq, Eq, Structural)]
pub enum Operator {
    Mul,
    Div,
    Mod,
    Add,
    Sub,
    Lt,
    Gt,
    Le,
    Ge,
    Equ,
    Ne,
    And,
    Or,
}

/// The value of a mathematical integer reduced to a signed 32-bit word in
/// two's complement.
pub open spec fn wrap32(x: int) -> int {
    let m = x % 0x1_0000_0000;
    if m > 0x7fff_ffff {
        m - 0x1_0000_0000
    } else {
        m
    }
}

/// The quotient rounded towards zero. (On mathematical integers `/` and `%`
/// are Euclidean: with a dividend that is not negative the remainder is not
/// negative either, so the quotient is the one rounded towards zero.)
pub open spec fn trunc_div(x: int, d: int) -> int {
    if x >= 0 {
        x / d
    } else {
        -((-x) / d)
    }
}

/// The remainder that goes with `trunc_div`; it has the sign of the dividend.
pub open spec fn trunc_rem(x: int, d: int) -> int {
    if x >= 0 {
        x % d
    } else {
        -((-x) % d)
    }
}

/// One for true, zero for false.
pub open spec fn truth(b: bool) -> int {
    if b {
        1
    } else {
        0
    }
}

/// The value of a binary operator on two 32-bit operands. Arithmetic wraps
/// around; comparisons and the logical operators give zero or one. For `Div`
/// and `Mod` the divisor is meant to be non-zero.
pub open spec fn apply_binary(op: Operator, a: i32, b: i32) -> int {
    match op {
        Operator::Mul => wrap32(a * b),
        Operator::Div => wrap32(trunc_div(a as int, b as int)),
        Operator::Mod => wrap32(trunc_rem(a as int, b as int)),
        Operator::Add => wrap32(a + b),
        Operator::Sub => wrap32(a - b),
        Operator::Lt => truth(a < b),
        Operator::Gt => truth(a > b),
        Operator::Le => truth(a <= b),
        Operator::Ge => truth(a >= b),
        Operator::Equ => truth(a == b),
        Operator::Ne => truth(a != b),
        Operator::And => truth(a != 0 && b != 0),
        Operator::Or => truth(a != 0 || b != 0),
    }
}

/// The value of a prefix operator on a 32-bit operand.
pub open spec fn apply_unary(op: UnaryOp, a: i32) -> int {
    match op {
        UnaryOp::Pos => a as int,
        UnaryOp::Neg => wrap32(-a),
        UnaryOp::Not => truth(a == 0),
        UnaryOp::Inv => -1 - a,
    }
}

/// Whether the operator divides.
pub open spec fn divides(op: Operator) -> bool {
    op == Operator::Div || op == Operator::Mod
}

/// The folding of a binary operator from the foldings of its operands. Both
/// operands are always folded. A failure in either, or a zero divisor, is a
/// failure; otherwise an operand that is no constant makes the whole no
/// constant.
pub open spec fn fold_binary(
    op: Operator,
    l: Result<Option<i32>, EvalError>,
    r: Result<Option<i32>, EvalError>,
) -> Result<Option<i32>, EvalError> {
    if l is Err || r is Err {
        Err(EvalError::DivisionByZero)
    } else if divides(op) && r == Ok::<Option<i32>, EvalError>(Some(0i32)) {
        Err(EvalError::DivisionByZero)
    } else {
        match (l, r) {
            (Ok(Some(a)), Ok(Some(b))) => Ok(Some(apply_binary(op, a, b) as i32)),
            _ => Ok(None),
        }
    }
}

/// The folding of a prefix operator from the folding of its operand.
pub open spec fn fold_unary(op: UnaryOp, x: Result<Option<i32>, EvalError>) -> Result<
    Option<i32>,
    EvalError,
> {
    match x {
        Ok(Some(a)) => Ok(Some(apply_unary(op, a) as i32)),
        Ok(None) => Ok(None),
        Err(e) => Err(e),
    }
}

/// Bounds of the Euclidean quotient and remainder of a dividend that is not
/// negative.
pub proof fn lemma_quotient_bounds(x: int, d: int)
    requires
        x >= 0,
        d != 0,
    ensures
        -x <= x / d <= x,
        0 <= x % d <= x,
        d == -1 ==> x / d == -x && x % d == 0,
        x / d == -x ==> (x == 0 || d == -1),
{
    assert(x == d * (x / d) + x % d && 0 <= x % d && (d > 0 ==> x % d < d) && (d < 0 ==> x % d
        < -d)) by (nonlinear_arith)
        requires
            d != 0,
    ;
    let q = x / d;
    let r = x % d;
    assert(-x <= q <= x && r <= x && (d == -1 ==> q == -x && r == 0) && (q == -x ==> (x == 0 || d
        == -1))) by (nonlinear_arith)
        requires
            x == d * q + r,
            0 <= r,
            d > 0 ==> r < d,
            d < 0 ==> r < -d,
            x >= 0,
            d != 0,
    ;
}

/// Computes `apply_unary`.
pub fn unary_value(op: &UnaryOp, a: i32) -> (r: i32)
    ensures
        r == apply_unary(*op, a),
{
    match op {
        UnaryOp::Pos => a,
        UnaryOp::Neg => {
            let zero: i32 = 0;
            zero.wrapping_sub(a)
        },
        UnaryOp::Not => {
            if a == 0 {
                1
            } else {
                0
            }
        },
        UnaryOp::Inv => {
            assert(!a == -1 - a) by (bit_vector);
            !a
        },
    }
}

/// Computes `apply_binary` where the divisor, if the operator divides, is not
/// zero.
pub fn binary_value(op: Operator, a: i32, b: i32) -> (r: i32)
    requires
        divides(op) ==> b != 0,
    ensures
        r == apply_binary(op, a, b),
{
    match op {
        Operator::Mul => {
            let r = a.wrapping_mul(b);
            proof {
                let p: int = a * b;
                assert(r == vstd::wrapping::i32_specs::signed_crop(p));
                assert(vstd::wrapping::i32_specs::signed_crop(p) == wrap32(p));
            }
            r
        },
        Operator::Div => {
            proof {
                lemma_quotient_bounds(if a >= 0 { a as int } else { -a }, b as int);
            }
            if a == i32::MIN && b == -1 {
                i32::MIN
            } else {
                a / b
            }
        },
        Operator::Mod => {
            proof {
                lemma_quotient_bounds(if a >= 0 { a as int } else { -a }, b as int);
            }
            if a == i32::MIN && b == -1 {
                0
            } else {
                a % b
            }
        },
        Operator::Add => a.wrapping_add(b),
        Operator::Sub => a.wrapping_sub(b),
        Operator::Lt => truth_value(a < b),
        Operator::Gt => truth_value(a > b),
        Operator::Le => truth_value(a <= b),
        Operator::Ge => truth_value(a >= b),
        Operator::Equ => truth_value(a == b),
        Operator::Ne => truth_value(a != b),
        Operator::And => truth_value(a != 0 && b != 0),
        Operator::Or => truth_value(a != 0 || b != 0),
    }
}

fn truth_value(b: bool) -> (r: i32)
    ensures
        r == truth(b),
{
    if b {
        1
    } else {
        0
    }
}

/// Computes `fold_binary`.
pub fn fold(
    op: Operator,
    l: Result<Option<i32>, EvalError>,
    r: Result<Option<i32>, EvalError>,
) -> (out: Result<Option<i32>, EvalError>)
    ensures
        out == fold_binary(op, l, r),
{
    match (l, r) {
        (Ok(x), Ok(y)) => {
            let dividing = match op {
                Operator::Div => true,
                Operator::Mod => true,
                _ => false,
            };
            match (x, y) {
                (_, Some(b)) if dividing && b == 0 => Err(EvalError::DivisionByZero),
                (Some(a), Some(b)) => Ok(Some(binary_value(op, a, b))),
                _ => Ok(None),
            }
        },
        _ => Err(EvalError::DivisionByZero),
    }
}

/// The operator tag of a multiplicative operator.
pub open spec fn mul_operator(op: MulOp) -> Operator {
    match op {
        MulOp::Mul => Operator::Mul,
        MulOp::Div => Operator::Div,
        MulOp::Mod => Operator::Mod,
    }
}

/// The operator tag of an additive operator.
pub open spec fn add_operator(op: AddOp) -> Operator {
    match op {
        AddOp::Add => Operator::Add,
        AddOp::Sub => Operator::Sub,
    }
}

/// The operator tag of a relational operator.
pub open spec fn rel_operator(op: RelOp) -> Operator {
    match op {
        RelOp::Lt => Operator::Lt,
        RelOp::Gt => Operator::Gt,
        RelOp::Le => Operator::Le,
        RelOp::Ge => Operator::Ge,
    }
}

/// The operator tag of an equality operator.
pub open spec fn eq_operator(op: EqOp) -> Operator {
    match op {
        EqOp::Equ => Operator::Equ,
        EqOp::Ne => Operator::Ne,
    }
}

impl MulOp {
    /// Computes `mul_operator`.
    pub fn operator(&self) -> (r: Operator)
        ensures
            r == mul_operator(*self),
    {
        match self {
            MulOp::Mul => Operator::Mul,
            MulOp::Div => Operator::Div,
            MulOp::Mod => Operator::Mod,
        }
    }
}

impl AddOp {
    /// Computes `add_operator`.
    pub fn operator(&self) -> (r: Operator)
        ensures
            r == add_operator(*self),
    {
        match self {
            AddOp::Add => Operator::Add,
            AddOp::Sub => Operator::Sub,
        }
    }
}

impl RelOp {
    /// Computes `rel_operator`.
    pub fn operator(&self) -> (r: Operator)
        ensures
            r == rel_operator(*self),
    {
        match self {
            RelOp::Lt => Operator::Lt,
            RelOp::Gt => Operator::Gt,
            RelOp::Le => Operator::Le,
            RelOp::Ge => Operator::Ge,
        }
    }
}

impl EqOp {
    /// Computes `eq_operator`.
    pub fn operator(&self) -> (r: Operator)
        ensures
            r == eq_operator(*self),
    {
        match self {
            EqOp::Equ => Operator::Equ,
            EqOp::Ne => Operator::Ne,
        }
    }
}

/// Folding of an expression under a constant environment.
pub trait Evaluate {
    /// What the expression folds to: `Ok(Some(v))` where every name in it is
    /// bound and no divisor is zero, `Ok(None)` where a name is unbound, and
    /// an error where a divisor folds to zero.
    spec fn folded(&self, env: Map<Seq<char>, i32>) -> Result<Option<i32>, EvalError>;

    /// Whether the expression refers, at any depth, to a name that the
    /// environment does not bind.
    spec fn mentions_unbound(&self, env: Map<Seq<char>, i32>) -> bool;

    /// Folds the expression.
    fn eval(&self, env: &ConstEnv) -> (r: Result<Option<i32>, EvalError>)
        ensures
            r == self.folded(env@),
    ;

    /// An expression that refers to an unbound name never folds to a value:
    /// unless a zero divisor makes the folding fail, the result is `None`.
    proof fn lemma_unbound_is_no_constant(&self, env: Map<Seq<char>, i32>)
        requires
            self.mentions_unbound(env),
        ensures
            self.folded(env) is Ok ==> self.folded(env) == Ok::<Option<i32>, EvalError>(None),
    ;

    /// An expression built from literals and bound names alone folds to a
    /// value, unless a zero divisor makes the folding fail.
    proof fn lemma_bound_is_constant(&self, env: Map<Seq<char>, i32>)
        requires
            !self.mentions_unbound(env),
        ensures
            self.folded(env) is Ok ==> self.folded(env)->Ok_0 is Some,
    ;
}

impl Evaluate for Exp {
    open spec fn folded(&self, env: Map<Seq<char>, i32>) -> Result<Option<i32>, EvalError>
        decreases self,
    {
        self.lorexp.folded(env)
    }

    open spec fn mentions_unbound(&self, env: Map<Seq<char>, i32>) -> bool
        decreases self,
    {
        self.lorexp.mentions_unbound(env)
    }

    fn eval(&self, env: &ConstEnv) -> (r: Result<Option<i32>, EvalError>)
        decreases self,
    {
        self.lorexp.eval(env)
    }

    proof fn lemma_unbound_is_no_constant(&self, env: Map<Seq<char>, i32>)
        decreases self,
    {
        self.lorexp.lemma_unbound_is_no_constant(env);
    }

    proof fn lemma_bound_is_constant(&self, env: Map<Seq<char>, i32>)
        decreases self,
    {
        self.lorexp.lemma_bound_is_constant(env);
    }
}

impl Evaluate for ConstExp {
    open spec fn folded(&self, env: Map<Seq<char>, i32>) -> Result<Option<i32>, EvalError> {
        self.exp.folded(env)
    }

    open spec fn mentions_unbound(&self, env: Map<Seq<char>, i32>) -> bool {
        self.exp.mentions_unbound(env)
    }

    fn eval(&self, env: &ConstEnv) -> (r: Result<Option<i32>, EvalError>) {
        self.exp.eval(env)
    }

    proof fn lemma_unbound_is_no_constant(&self, env: Map<Seq<char>, i32>) {
        self.exp.lemma_unbound_is_no_constant(env);
    }

    proof fn lemma_bound_is_constant(&self, env: Map<Seq<char>, i32>) {
        self.exp.lemma_bound_is_constant(env);
    }
}

impl Evaluate for PrimaryExp {
    open spec fn folded(&self, env: Map<Seq<char>, i32>) -> Result<Option<i32>, EvalError>
        decreases self,
    {
        match self {
            PrimaryExp::Exp(exp) => exp.folded(env),
            PrimaryExp::Number(number) => Ok(Some(*number)),
            PrimaryExp::LVal(lval) => Ok(lookup(env, lval.ident@)),
        }
    }

    open spec fn mentions_unbound(&self, env: Map<Seq<char>, i32>) -> bool
        decreases self,
    {
        match self {
            PrimaryExp::Exp(exp) => exp.mentions_unbound(env),
            PrimaryExp::Number(_) => false,
            PrimaryExp::LVal(lval) => !env.contains_key(lval.ident@),
        }
    }

    fn eval(&self, env: &ConstEnv) -> (r: Result<Option<i32>, EvalError>)
        decreases self,
    {
        match self {
            PrimaryExp::Exp(exp) => exp.eval(env),
            PrimaryExp::Number(number) => Ok(Some(*number)),
            PrimaryExp::LVal(lval) => Ok(env.get(&lval.ident)),
        }
    }

    proof fn lemma_unbound_is_no_constant(&self, env: Map<Seq<char>, i32>)
        decreases self,
    {
        match self {
            PrimaryExp::Exp(exp) => exp.lemma_unbound_is_no_constant(env),
            _ => {},
        }
    }

    proof fn lemma_bound_is_constant(&self, env: Map<Seq<char>, i32>)
        decreases self,
    {
        match self {
            PrimaryExp::Exp(exp) => exp.lemma_bound_is_constant(env),
            _ => {},
        }
    }
}

impl Evaluate for UnaryExp {
    open spec fn folded(&self, env: Map<Seq<char>, i32>) -> Result<Option<i32>, EvalError>
        decreases self,
    {
        match self {
            UnaryExp::PExp(primaryexp) => primaryexp.folded(env),
            UnaryExp::UExp(unaryop, unaryexp) => fold_unary(*unaryop, unaryexp.folded(env)),
        }
    }

    open spec fn mentions_unbound(&self, env: Map<Seq<char>, i32>) -> bool
        decreases self,
    {
        match self {
            UnaryExp::PExp(primaryexp) => primaryexp.mentions_unbound(env),
            UnaryExp::UExp(_, unaryexp) => unaryexp.mentions_unbound(env),
        }
    }

    fn eval(&self, env: &ConstEnv) -> (r: Result<Option<i32>, EvalError>)
        decreases self,
    {
        match self {
            UnaryExp::PExp(primaryexp) => primaryexp.eval(env),
            UnaryExp::UExp(unaryop, unaryexp) => match unaryexp.eval(env) {
                Ok(Some(a)) => Ok(Some(unary_value(unaryop, a))),
                Ok(None) => Ok(None),
                Err(e) => Err(e),
            },
        }
    }

    proof fn lemma_unbound_is_no_constant(&self, env: Map<Seq<char>, i32>)
        decreases self,
    {
        match self {
            UnaryExp::PExp(primaryexp) => primaryexp.lemma_unbound_is_no_constant(env),
            UnaryExp::UExp(_, unaryexp) => unaryexp.lemma_unbound_is_no_constant(env),
        }
    }

    proof fn lemma_bound_is_constant(&self, env: Map<Seq<char>, i32>)
        decreases self,
    {
        match self {
            UnaryExp::PExp(primaryexp) => primaryexp.lemma_bound_is_constant(env),
            UnaryExp::UExp(_, unaryexp) => unaryexp.lemma_bound_is_constant(env),
        }
    }
}

impl Evaluate for MulExp {
    open spec fn folded(&self, env: Map<Seq<char>, i32>) -> Result<Option<i32>, EvalError>
        decreases self,
    {
        match self {
            MulExp::UExp(inner) => inner.folded(env),
            MulExp::MExp(lhs, op, rhs) => fold_binary(mul_operator(*op), lhs.folded(env), rhs.folded(env)),
        }
    }

    open spec fn mentions_unbound(&self, env: Map<Seq<char>, i32>) -> bool
        decreases self,
    {
        match self {
            MulExp::UExp(inner) => inner.mentions_unbound(env),
            MulExp::MExp(lhs, _, rhs) => lhs.mentions_unbound(env) || rhs.mentions_unbound(env),
        }
    }

    fn eval(&self, env: &ConstEnv) -> (r: Result<Option<i32>, EvalError>)
        decreases self,
    {
        match self {
            MulExp::UExp(inner) => inner.eval(env),
            MulExp::MExp(lhs, op, rhs) => {
                let l = lhs.eval(env);
                let r = rhs.eval(env);
                fold(op.operator(), l, r)
            },
        }
    }

    proof fn lemma_unbound_is_no_constant(&self, env: Map<Seq<char>, i32>)
        decreases self,
    {
        match self {
            MulExp::UExp(inner) => inner.lemma_unbound_is_no_constant(env),
            MulExp::MExp(lhs, _, rhs) => {
                if lhs.mentions_unbound(env) {
                    lhs.lemma_unbound_is_no_constant(env);
                }
                if rhs.mentions_unbound(env) {
                    rhs.lemma_unbound_is_no_constant(env);
                }
            },
        }
    }

    proof fn lemma_bound_is_constant(&self, env: Map<Seq<char>, i32>)
        decreases self,
    {
        match self {
            MulExp::UExp(inner) => inner.lemma_bound_is_constant(env),
            MulExp::MExp(lhs, _, rhs) => {
                lhs.lemma_bound_is_constant(env);
                rhs.lemma_bound_is_constant(env);
            },
        }
    }
}

impl Evaluate for AddExp {
    open spec fn folded(&self, env: Map<Seq<char>, i32>) -> Result<Option<i32>, EvalError>
        decreases self,
    {
        match self {
            AddExp::MExp(inner) => inner.folded(env),
            AddExp::AExp(lhs, op, rhs) => fold_binary(add_operator(*op), lhs.folded(env), rhs.folded(env)),
        }
    }

    open spec fn mentions_unbound(&self, env: Map<Seq<char>, i32>) -> bool
        decreases self,
    {
        match self {
            AddExp::MExp(inner) => inner.mentions_unbound(env),
            AddExp::AExp(lhs, _, rhs) => lhs.mentions_unbound(env) || rhs.mentions_unbound(env),
        }
    }

    fn eval(&self, env: &ConstEnv) -> (r: Result<Option<i32>, EvalError>)
        decreases self,
    {
        match self {
            AddExp::MExp(inner) => inner.eval(env),
            AddExp::AExp(lhs, op, rhs) => {
                let l = lhs.eval(env);
                let r = rhs.eval(env);
                fold(op.operator(), l, r)
            },
        }
    }

    proof fn lemma_unbound_is_no_constant(&self, env: Map<Seq<char>, i32>)
        decreases self,
    {
        match self {
            AddExp::MExp(inner) => inner.lemma_unbound_is_no_constant(env),
            AddExp::AExp(lhs, _, rhs) => {
                if lhs.mentions_unbound(env) {
                    lhs.lemma_unbound_is_no_constant(env);
                }
                if rhs.mentions_unbound(env) {
                    rhs.lemma_unbound_is_no_constant(env);
                }
            },
        }
    }

    proof fn lemma_bound_is_constant(&self, env: Map<Seq<char>, i32>)
        decreases self,
    {
        match self {
            AddExp::MExp(inner) => inner.lemma_bound_is_constant(env),
            AddExp::AExp(lhs, _, rhs) => {
                lhs.lemma_bound_is_constant(env);
                rhs.lemma_bound_is_constant(env);
            },
        }
    }
}

impl Evaluate for RelExp {
    open spec fn folded(&self, env: Map<Seq<char>, i32>) -> Result<Option<i32>, EvalError>
        decreases self,
    {
        match self {
            RelExp::AExp(inner) => inner.folded(env),
            RelExp::RExp(lhs, op, rhs) => fold_binary(rel_operator(*op), lhs.folded(env), rhs.folded(env)),
        }
    }

    open spec fn mentions_unbound(&self, env: Map<Seq<char>, i32>) -> bool
        decreases self,
    {
        match self {
            RelExp::AExp(inner) => inner.mentions_unbound(env),
            RelExp::RExp(lhs, _, rhs) => lhs.mentions_unbound(env) || rhs.mentions_unbound(env),
        }
    }

    fn eval(&self, env: &ConstEnv) -> (r: Result<Option<i32>, EvalError>)
        decreases self,
    {
        match self {
            RelExp::AExp(inner) => inner.eval(env),
            RelExp::RExp(lhs, op, rhs) => {
                let l = lhs.eval(env);
                let r = rhs.eval(env);
                fold(op.operator(), l, r)
            },
        }
    }

    proof fn lemma_unbound_is_no_constant(&self, env: Map<Seq<char>, i32>)
        decreases self,
    {
        match self {
            RelExp::AExp(inner) => inner.lemma_unbound_is_no_constant(env),
            RelExp::RExp(lhs, _, rhs) => {
                if lhs.mentions_unbound(env) {
                    lhs.lemma_unbound_is_no_constant(env);
                }
                if rhs.mentions_unbound(env) {
                    rhs.lemma_unbound_is_no_constant(env);
                }
            },
        }
    }

    proof fn lemma_bound_is_constant(&self, env: Map<Seq<char>, i32>)
        decreases self,
    {
        match self {
            RelExp::AExp(inner) => inner.lemma_bound_is_constant(env),
            RelExp::RExp(lhs, _, rhs) => {
                lhs.lemma_bound_is_constant(env);
                rhs.lemma_bound_is_constant(env);
            },
        }
    }
}

impl Evaluate for EqExp {
    open spec fn folded(&self, env: Map<Seq<char>, i32>) -> Result<Option<i32>, EvalError>
        decreases self,
    {
        match self {
            EqExp::RExp(inner) => inner.folded(env),
            EqExp::EExp(lhs, op, rhs) => fold_binary(eq_operator(*op), lhs.folded(env), rhs.folded(env)),
        }
    }

    open spec fn mentions_unbound(&self, env: Map<Seq<char>, i32>) -> bool
        decreases self,
    {
        match self {
            EqExp::RExp(inner) => inner.mentions_unbound(env),
            EqExp::EExp(lhs, _, rhs) => lhs.mentions_unbound(env) || rhs.mentions_unbound(env),
        }
    }

    fn eval(&self, env: &ConstEnv) -> (r: Result<Option<i32>, EvalError>)
        decreases self,
    {
        match self {
            EqExp::RExp(inner) => inner.eval(env),
            EqExp::EExp(lhs, op, rhs) => {
                let l = lhs.eval(env);
                let r = rhs.eval(env);
                fold(op.operator(), l, r)
            },
        }
    }

    proof fn lemma_unbound_is_no_constant(&self, env: Map<Seq<char>, i32>)
        decreases self,
    {
        match self {
            EqExp::RExp(inner) => inner.lemma_unbound_is_no_constant(env),
            EqExp::EExp(lhs, _, rhs) => {
                if lhs.mentions_unbound(env) {
                    lhs.lemma_unbound_is_no_constant(env);
                }
                if rhs.mentions_unbound(env) {
                    rhs.lemma_unbound_is_no_constant(env);
                }
            },
        }
    }

    proof fn lemma_bound_is_constant(&self, env: Map<Seq<char>, i32>)
        decreases self,
    {
        match self {
            EqExp::RExp(inner) => inner.lemma_bound_is_constant(env),
            EqExp::EExp(lhs, _, rhs) => {
                lhs.lemma_bound_is_constant(env);
                rhs.lemma_bound_is_constant(env);
            },
        }
    }
}

impl Evaluate for LAndExp {
    open spec fn folded(&self, env: Map<Seq<char>, i32>) -> Result<Option<i32>, EvalError>
        decreases self,
    {
        match self {
            LAndExp::EExp(inner) => inner.folded(env),
            LAndExp::LAExp(lhs, rhs) => fold_binary(Operator::And, lhs.folded(env), rhs.folded(env)),
        }
    }

    open spec fn mentions_unbound(&self, env: Map<Seq<char>, i32>) -> bool
        decreases self,
    {
        match self {
            LAndExp::EExp(inner) => inner.mentions_unbound(env),
            LAndExp::LAExp(lhs, rhs) => lhs.mentions_unbound(env) || rhs.mentions_unbound(env),
        }
    }

    fn eval(&self, env: &ConstEnv) -> (r: Result<Option<i32>, EvalError>)
        decreases self,
    {
        match self {
            LAndExp::EExp(inner) => inner.eval(env),
            LAndExp::LAExp(lhs, rhs) => {
                let l = lhs.eval(env);
                let r = rhs.eval(env);
                fold(Operator::And, l, r)
            },
        }
    }

    proof fn lemma_unbound_is_no_constant(&self, env: Map<Seq<char>, i32>)
        decreases self,
    {
        match self {
            LAndExp::EExp(inner) => inner.lemma_unbound_is_no_constant(env),
            LAndExp::LAExp(lhs, rhs) => {
                if lhs.mentions_unbound(env) {
                    lhs.lemma_unbound_is_no_constant(env);
                }
                if rhs.mentions_unbound(env) {
                    rhs.lemma_unbound_is_no_constant(env);
                }
            },
        }
    }

    proof fn lemma_bound_is_constant(&self, env: Map<Seq<char>, i32>)
        decreases self,
    {
        match self {
            LAndExp::EExp(inner) => inner.lemma_bound_is_constant(env),
            LAndExp::LAExp(lhs, rhs) => {
                lhs.lemma_bound_is_constant(env);
                rhs.lemma_bound_is_constant(env);
            },
        }
    }
}

impl Evaluate for LOrExp {
    open spec fn folded(&self, env: Map<Seq<char>, i32>) -> Result<Option<i32>, EvalError>
        decreases self,
    {
        match self {
            LOrExp::LAExp(inner) => inner.folded(env),
            LOrExp::LOExp(lhs, rhs) => fold_binary(Operator::Or, lhs.folded(env), rhs.folded(env)),
        }
    }

    open spec fn mentions_unbound(&self, env: Map<Seq<char>, i32>) -> bool
        decreases self,
    {
        match self {
            LOrExp::LAExp(inner) => inner.mentions_unbound(env),
            LOrExp::LOExp(lhs, rhs) => lhs.mentions_unbound(env) || rhs.mentions_unbound(env),
        }
    }

    fn eval(&self, env: &ConstEnv) -> (r: Result<Option<i32>, EvalError>)
        decreases self,
    {
        match self {
            LOrExp::LAExp(inner) => inner.eval(env),
            LOrExp::LOExp(lhs, rhs) => {
                let l = lhs.eval(env);
                let r = rhs.eval(env);
                fold(Operator::Or, l, r)
            },
        }
    }

    proof fn lemma_unbound_is_no_constant(&self, env: Map<Seq<char>, i32>)
        decreases self,
    {
        match self {
            LOrExp::LAExp(inner) => inner.lemma_unbound_is_no_constant(env),
            LOrExp::LOExp(lhs, rhs) => {
                if lhs.mentions_unbound(env) {
                    lhs.lemma_unbound_is_no_constant(env);
                }
                if rhs.mentions_unbound(env) {
                    rhs.lemma_unbound_is_no_constant(env);
                }
            },
        }
    }

    proof fn lemma_bound_is_constant(&self, env: Map<Seq<char>, i32>)
        decreases self,
    {
        match self {
            LOrExp::LAExp(inner) => inner.lemma_bound_is_constant(env),
            LOrExp::LOExp(lhs, rhs) => {
                lhs.lemma_bound_is_constant(env);
                rhs.lemma_bound_is_constant(env);
            },
        }
    }
}

/// A comparison or a logical operator gives exactly zero or one.
pub proof fn lemma_truth_values(op: Operator, a: i32, b: i32)
    requires
        op != Operator::Mul,
        op != Operator::Div,
        op != Operator::Mod,
        op != Operator::Add,
        op != Operator::Sub,
    ensures
        apply_binary(op, a, b) == 0 || apply_binary(op, a, b) == 1,
{
}

/// A value that fits in 32 bits is its own reduction.
pub proof fn lemma_wrap32_in_range(x: int)
    requires
        i32::MIN <= x <= i32::MAX,
    ensures
        wrap32(x) == x,
{
}

/// Division and remainder, where the quotient fits in 32 bits, are the
/// quotient rounded towards zero and its remainder, unchanged by wrapping.
/// They satisfy the division identity; the remainder has the sign of the
/// dividend and is smaller in magnitude than the divisor.
pub proof fn lemma_division_identity(a: i32, b: i32)
    requires
        b != 0,
        !(a == i32::MIN && b == -1),
    ensures
        ({
            let q = apply_binary(Operator::Div, a, b);
            let r = apply_binary(Operator::Mod, a, b);
            &&& q == trunc_div(a as int, b as int)
            &&& r == trunc_rem(a as int, b as int)
            &&& a == b * q + r
            &&& (a >= 0 ==> 0 <= r)
            &&& (a <= 0 ==> r <= 0)
            &&& (b > 0 ==> -b < r < b)
            &&& (b < 0 ==> b < r < -b)
        }),
{
    let x: int = if a >= 0 {
        a as int
    } else {
        -a
    };
    let d: int = b as int;
    let q0 = x / d;
    let r0 = x % d;
    lemma_quotient_bounds(x, d);
    assert(x == d * q0 + r0 && (d > 0 ==> r0 < d) && (d < 0 ==> r0 < -d)) by (nonlinear_arith)
        requires
            d != 0,
            q0 == x / d,
            r0 == x % d,
    ;
    if a >= 0 {
        assert(trunc_div(a as int, d) == q0);
        assert(trunc_rem(a as int, d) == r0);
        lemma_wrap32_in_range(q0);
        lemma_wrap32_in_range(r0);
    } else {
        assert(trunc_div(a as int, d) == -q0);
        assert(trunc_rem(a as int, d) == -r0);
        lemma_wrap32_in_range(-q0);
        lemma_wrap32_in_range(-r0);
        assert(-x == d * (-q0) + (-r0)) by (nonlinear_arith)
            requires
                x == d * q0 + r0,
        ;
    }
}

/// Where the mathematical result fits in 32 bits, wrapping does not change
/// it: addition, subtraction and multiplication are the mathematical ones.
/// The one quotient that does not fit wraps around to the dividend.
pub proof fn lemma_arithmetic_is_native(a: i32, b: i32)
    ensures
        i32::MIN <= a + b <= i32::MAX ==> apply_binary(Operator::Add, a, b) == a + b,
        i32::MIN <= a - b <= i32::MAX ==> apply_binary(Operator::Sub, a, b) == a - b,
        i32::MIN <= a * b <= i32::MAX ==> apply_binary(Operator::Mul, a, b) == a * b,
        a == i32::MIN && b == -1 ==> apply_binary(Operator::Div, a, b) == i32::MIN
            && apply_binary(Operator::Mod, a, b) == 0,
{
    if i32::MIN <= a + b <= i32::MAX {
        lemma_wrap32_in_range(a + b);
    }
    if i32::MIN <= a - b <= i32::MAX {
        lemma_wrap32_in_range(a - b);
    }
    if i32::MIN <= a * b <= i32::MAX {
        lemma_wrap32_in_range(a * b);
    }
    if a == i32::MIN && b == -1 {
        lemma_quotient_bounds(0x8000_0000, -1);
    }
}

/// A multiplicative expression whose operands fold to values folds to the
/// native result wherever that fits in 32 bits: the product, the quotient
/// rounded towards zero, or its remainder. Where an operand is no constant
/// and no zero divisor is involved, it folds to `None`.
pub proof fn lemma_multiplicative_folds_native(e: MulExp, env: Map<Seq<char>, i32>)
    requires
        e is MExp,
    ensures
        ({
            let l = e->MExp_0.folded(env);
            let op = e->MExp_1;
            let r = e->MExp_2.folded(env);
            &&& match (l, r) {
                (Ok(Some(a)), Ok(Some(b))) => {
                    &&& (op is Mul && i32::MIN <= a * b <= i32::MAX ==> e.folded(env) == Ok::<
                        Option<i32>,
                        EvalError,
                    >(Some((a * b) as i32)))
                    &&& (op is Div && b != 0 && !(a == i32::MIN && b == -1) ==> i32::MIN
                        <= trunc_div(a as int, b as int) <= i32::MAX && e.folded(env) == Ok::<
                        Option<i32>,
                        EvalError,
                    >(Some(trunc_div(a as int, b as int) as i32)))
                    &&& (op is Mod && b != 0 && !(a == i32::MIN && b == -1) ==> i32::MIN
                        <= trunc_rem(a as int, b as int) <= i32::MAX && e.folded(env) == Ok::<
                        Option<i32>,
                        EvalError,
                    >(Some(trunc_rem(a as int, b as int) as i32)))
                },
                _ => true,
            }
            &&& (l is Ok && r is Ok && (l->Ok_0 is None || r->Ok_0 is None) && !(!(op is Mul)
                && r->Ok_0 == Some(0i32)) ==> e.folded(env) == Ok::<Option<i32>, EvalError>(None))
        }),
{
    let l = e->MExp_0.folded(env);
    let op = e->MExp_1;
    let r = e->MExp_2.folded(env);
    assert(e.folded(env) == fold_binary(mul_operator(op), l, r));
    match (l, r) {
        (Ok(Some(a)), Ok(Some(b))) => {
            if op is Mul && i32::MIN <= a * b <= i32::MAX {
                lemma_wrap32_in_range(a * b);
            }
            if !(op is Mul) && b != 0 && !(a == i32::MIN && b == -1) {
                lemma_division_identity(a, b);
            }
        },
        _ => {},
    }
}

/// A division or a remainder whose divisor folds to zero fails, whatever the
/// dividend is.
pub proof fn lemma_zero_divisor_fails(e: MulExp, env: Map<Seq<char>, i32>)
    requires
        e matches MulExp::MExp(_, op, rhs) && (op is Div || op is Mod) && rhs.folded(env) == Ok::<
            Option<i32>,
            EvalError,
        >(Some(0i32)),
    ensures
        e.folded(env) == Err::<Option<i32>, EvalError>(EvalError::DivisionByZero),
{
}

} // verus!
