//! Lowering of the syntax tree to the textual intermediate representation.
//!
//! Every rule gives the lines that compute its result and a token by which
//! the caller refers to that result: a literal, a name, or a temporary `%N`.
//! Temporaries are numbered from a counter that only grows and that starts at
//! zero in each function.

use vstd::prelude::*;
use vstd::string::*;
use crate::ast::{
    AddExp, AddOp, Block, BlockItem, CompUnit, ConstDecl, ConstDef, Decl, EqExp, EqOp, Exp,
    FuncDef, FuncType, LAndExp, LOrExp, MulExp, MulOp, PrimaryExp, RelExp, RelOp, Stmt, UnaryExp,
    UnaryOp,
};
use crate::consts::{lookup, ConstEnv};
use crate::eval::Evaluate;
use crate::text::{append_decimal, decimal_int, decimal_nat, decimal_string};

verus! {

/// Why a construct could not be lowered.
#[derive(Debug, Clone, Copy, PartialEq, Eq, Structural)]
pub enum LowerError {
    /// A constant initializer divides by a folded zero.
    DivisionByZero,
    /// A constant initializer refers to a name that is no constant.
    NotConstant,
    /// A construct that has no lowering: a statement or a variable
    /// declaration.
    Unsupported,
    /// The counter of temporaries would pass its largest value.
    TemporariesExhausted,
}

/// The lines of a lowered construct and the token that refers to its result.
pub struct Retpair {
    pub irstr: String,
    pub varstr: String,
}

/// What a `Retpair` holds, as text.
pub struct Fragment {
    pub text: Seq<char>,
    pub name: Seq<char>,
}

impl View for Retpair {
    type V = Fragment;

    open spec fn view(&self) -> Fragment {
        Fragment { text: self.irstr@, name: self.varstr@ }
    }
}

impl Retpair {
    /// The lines alone.
    pub fn to_string(&self) -> (r: String)
        ensures
            r@ == self.irstr@,
    {
        self.irstr.clone()
    }
}

/// The state of a lowering, as values: the number of the next temporary and
/// the constants bound so far.
pub struct LowerState {
    pub count: nat,
    pub consts: Map<Seq<char>, i32>,
}

/// The state that a lowering threads through its rules.
pub struct LowerCtx {
    pub count: u32,
    pub consts: ConstEnv,
}

impl View for LowerCtx {
    type V = LowerState;

    open spec fn view(&self) -> LowerState {
        LowerState { count: self.count as nat, consts: self.consts@ }
    }
}

impl LowerCtx {
    /// A context with the counter at zero and no constants.
    pub fn new() -> (r: LowerCtx)
        ensures
            r@ == (LowerState { count: 0, consts: Map::empty() }),
    {
        LowerCtx { count: 0, consts: ConstEnv::new() }
    }

    /// Takes `k` consecutive numbers from the counter and returns the first,
    /// or `None`, with the context unchanged, where the counter cannot grow
    /// by `k`.
    pub fn take(&mut self, k: u32) -> (r: Option<u32>)
        ensures
            match r {
                Some(n) => n == old(self).count && final(self).count == old(self).count + k
                    && final(self).consts == old(self).consts,
                None => old(self).count + k > u32::MAX && *final(self) == *old(self),
            },
    {
        match self.count.checked_add(k) {
            Some(next) => {
                let first = self.count;
                self.count = next;
                Some(first)
            },
            None => None,
        }
    }
}

/// The outcome of a rule: its lines, its token and the state it leaves.
pub struct Lowered {
    pub text: Seq<char>,
    pub name: Seq<char>,
    pub state: LowerState,
}

/// Whether a call's result and the state it left are the expected outcome.
/// A failure leaves the state as it was before the call.
pub open spec fn lowering_agrees(
    r: Result<Retpair, LowerError>,
    before: LowerState,
    after: LowerState,
    expected: Result<Lowered, LowerError>,
) -> bool {
    match expected {
        Ok(l) => r is Ok && r->Ok_0.irstr@ == l.text && r->Ok_0.varstr@ == l.name && after
            == l.state,
        Err(e) => r is Err && r->Err_0 == e && after == before,
    }
}

/// The name of the temporary with number `n`.
pub open spec fn temp_name(n: nat) -> Seq<char> {
    "%"@ + decimal_nat(n)
}

/// The line that assigns a prefix operation to temporary `n`. `head` is the
/// operation with its fixed first operand, such as `sub 0,`.
pub open spec fn unary_line(n: nat, head: Seq<char>, x: Seq<char>) -> Seq<char> {
    "  %"@ + decimal_nat(n) + " = "@ + head + " "@ + x + "\n"@
}

/// The line that assigns a binary operation to temporary `n`.
pub open spec fn binary_line(n: nat, mnemonic: Seq<char>, l: Seq<char>, r: Seq<char>) -> Seq<
    char,
> {
    "  %"@ + decimal_nat(n) + " = "@ + mnemonic + " "@ + l + ", "@ + r + "\n"@
}

/// The three lines of a logical operation: both operands are compared with
/// zero, then the two truth values are combined.
pub open spec fn logic_lines(n: nat, mnemonic: Seq<char>, l: Seq<char>, r: Seq<char>) -> Seq<
    char,
> {
    binary_line(n, "ne"@, "0"@, l) + binary_line(n + 1, "ne"@, "0"@, r) + binary_line(
        n + 2,
        mnemonic,
        temp_name(n),
        temp_name(n + 1),
    )
}

/// A prefix operation on a lowered operand, into temporary `n`.
pub open spec fn unary_fragment(a: Fragment, n: nat, head: Seq<char>) -> Fragment {
    Fragment { text: a.text + unary_line(n, head, a.name), name: temp_name(n) }
}

/// A binary operation on two lowered operands, into temporary `n`.
pub open spec fn binary_fragment(a: Fragment, b: Fragment, n: nat, mnemonic: Seq<char>) -> Fragment {
    Fragment { text: a.text + b.text + binary_line(n, mnemonic, a.name, b.name), name: temp_name(n) }
}

/// A logical operation on two lowered operands, into temporaries `n` to
/// `n + 2`; the last holds the result.
pub open spec fn logic_fragment(a: Fragment, b: Fragment, n: nat, mnemonic: Seq<char>) -> Fragment {
    Fragment {
        text: a.text + b.text + logic_lines(n, mnemonic, a.name, b.name),
        name: temp_name(n + 2),
    }
}

/// The text of a prefix operator with its fixed first operand.
pub open spec fn unary_head(op: UnaryOp) -> Seq<char> {
    match op {
        UnaryOp::Neg => "sub 0,"@,
        UnaryOp::Not => "eq 0,"@,
        UnaryOp::Inv => "xor -1,"@,
        UnaryOp::Pos => "add 0,"@,
    }
}

/// The mnemonic of a multiplicative operator.
pub open spec fn mul_mnemonic(op: MulOp) -> Seq<char> {
    match op {
        MulOp::Div => "div"@,
        MulOp::Mod => "mod"@,
        MulOp::Mul => "mul"@,
    }
}

/// The mnemonic of an additive operator.
pub open spec fn add_mnemonic(op: AddOp) -> Seq<char> {
    match op {
        AddOp::Add => "add"@,
        AddOp::Sub => "sub"@,
    }
}

/// The mnemonic of a relational operator.
pub open spec fn rel_mnemonic(op: RelOp) -> Seq<char> {
    match op {
        RelOp::Lt => "lt"@,
        RelOp::Gt => "gt"@,
        RelOp::Le => "le"@,
        RelOp::Ge => "ge"@,
    }
}

/// The mnemonic of an equality operator.
pub open spec fn eq_mnemonic(op: EqOp) -> Seq<char> {
    match op {
        EqOp::Equ => "eq"@,
        EqOp::Ne => "ne"@,
    }
}

impl UnaryOp {
    /// Computes `unary_head`.
    pub fn head(&self) -> (r: &'static str)
        ensures
            r@ == unary_head(*self),
    {
        match self {
            UnaryOp::Neg => "sub 0,",
            UnaryOp::Not => "eq 0,",
            UnaryOp::Inv => "xor -1,",
            UnaryOp::Pos => "add 0,",
        }
    }
}

impl MulOp {
    /// Computes `mul_mnemonic`.
    pub fn mnemonic(&self) -> (r: &'static str)
        ensures
            r@ == mul_mnemonic(*self),
    {
        match self {
            MulOp::Div => "div",
            MulOp::Mod => "mod",
            MulOp::Mul => "mul",
        }
    }
}

impl AddOp {
    /// Computes `add_mnemonic`.
    pub fn mnemonic(&self) -> (r: &'static str)
        ensures
            r@ == add_mnemonic(*self),
    {
        match self {
            AddOp::Add => "add",
            AddOp::Sub => "sub",
        }
    }
}

impl RelOp {
    /// Computes `rel_mnemonic`.
    pub fn mnemonic(&self) -> (r: &'static str)
        ensures
            r@ == rel_mnemonic(*self),
    {
        match self {
            RelOp::Lt => "lt",
            RelOp::Gt => "gt",
            RelOp::Le => "le",
            RelOp::Ge => "ge",
        }
    }
}

impl EqOp {
    /// Computes `eq_mnemonic`.
    pub fn mnemonic(&self) -> (r: &'static str)
        ensures
            r@ == eq_mnemonic(*self),
    {
        match self {
            EqOp::Equ => "eq",
            EqOp::Ne => "ne",
        }
    }
}

/// The name of temporary `n` as a string.
pub fn temp_string(n: u32) -> (s: String)
    ensures
        s@ == temp_name(n as nat),
{
    let mut s = String::from_str("%");
    append_decimal(&mut s, n as u64);
    s
}

/// Computes `unary_line`.
pub fn unary_line_string(n: u32, head: &str, x: &str) -> (s: String)
    ensures
        s@ == unary_line(n as nat, head@, x@),
{
    let mut s = String::from_str("  %");
    append_decimal(&mut s, n as u64);
    s.append(" = ");
    s.append(head);
    s.append(" ");
    s.append(x);
    s.append("\n");
    s
}

/// Computes `binary_line`.
pub fn binary_line_string(n: u32, mnemonic: &str, l: &str, r: &str) -> (s: String)
    ensures
        s@ == binary_line(n as nat, mnemonic@, l@, r@),
{
    let mut s = String::from_str("  %");
    append_decimal(&mut s, n as u64);
    s.append(" = ");
    s.append(mnemonic);
    s.append(" ");
    s.append(l);
    s.append(", ");
    s.append(r);
    s.append("\n");
    s
}

/// Computes `unary_fragment`.
pub fn lower_unary(a: Retpair, n: u32, head: &str) -> (r: Retpair)
    ensures
        r@ == unary_fragment(a@, n as nat, head@),
{
    let line = unary_line_string(n, head, a.varstr.as_str());
    let mut irstr = a.irstr;
    irstr.append(line.as_str());
    Retpair { irstr, varstr: temp_string(n) }
}

/// Computes `binary_fragment`.
pub fn lower_binary(a: Retpair, b: Retpair, n: u32, mnemonic: &str) -> (r: Retpair)
    ensures
        r@ == binary_fragment(a@, b@, n as nat, mnemonic@),
{
    let line = binary_line_string(n, mnemonic, a.varstr.as_str(), b.varstr.as_str());
    let mut irstr = a.irstr;
    irstr.append(b.irstr.as_str());
    irstr.append(line.as_str());
    Retpair { irstr, varstr: temp_string(n) }
}

/// Computes `logic_fragment`.
pub fn lower_logic(a: Retpair, b: Retpair, n: u32, mnemonic: &str) -> (r: Retpair)
    requires
        n + 2 <= u32::MAX,
    ensures
        r@ == logic_fragment(a@, b@, n as nat, mnemonic@),
{
    let first = temp_string(n);
    let second = temp_string(n + 1);
    let mut lines = binary_line_string(n, "ne", "0", a.varstr.as_str());
    let line = binary_line_string(n + 1, "ne", "0", b.varstr.as_str());
    lines.append(line.as_str());
    let line = binary_line_string(n + 2, mnemonic, first.as_str(), second.as_str());
    lines.append(line.as_str());
    let mut irstr = a.irstr;
    irstr.append(b.irstr.as_str());
    irstr.append(lines.as_str());
    Retpair { irstr, varstr: temp_string(n + 2) }
}

/// The outcome of lowering an expression that takes `temps` temporaries and
/// lowers to `f`: the counter moves by `temps`, and the lowering fails where
/// it cannot.
pub open spec fn expr_lowered(temps: nat, f: Fragment, st: LowerState) -> Result<
    Lowered,
    LowerError,
> {
    if st.count + temps > u32::MAX {
        Err(LowerError::TemporariesExhausted)
    } else {
        Ok(
            Lowered {
                text: f.text,
                name: f.name,
                state: LowerState { count: st.count + temps, consts: st.consts },
            },
        )
    }
}

/// A token without lines.
pub open spec fn leaf(name: Seq<char>) -> Fragment {
    Fragment { text: Seq::empty(), name }
}

/// The outcome of a rule that emits one piece of text and changes nothing.
pub open spec fn plain(text: Seq<char>, st: LowerState) -> Result<Lowered, LowerError> {
    Ok(Lowered { text, name: Seq::empty(), state: st })
}

impl Exp {
    /// The number of temporaries that the expression takes.
    pub open spec fn temps(&self) -> nat
        decreases self,
    {
        self.lorexp.temps()
    }

    /// The lines and the token of the expression, with `count` as the number
    /// of its first temporary.
    pub open spec fn ir(&self, consts: Map<Seq<char>, i32>, count: nat) -> Fragment
        decreases self,
    {
        self.lorexp.ir(consts, count)
    }
}

impl PrimaryExp {
    /// The number of temporaries that the expression takes.
    pub open spec fn temps(&self) -> nat
        decreases self,
    {
        match self {
            PrimaryExp::Exp(exp) => exp.temps(),
            _ => 0,
        }
    }

    /// The lines and the token of the expression. A literal stands for
    /// itself, a constant for its value, any other name for itself.
    pub open spec fn ir(&self, consts: Map<Seq<char>, i32>, count: nat) -> Fragment
        decreases self,
    {
        match self {
            PrimaryExp::Exp(exp) => exp.ir(consts, count),
            PrimaryExp::Number(num) => leaf(decimal_int(*num as int)),
            PrimaryExp::LVal(lval) => match lookup(consts, lval.ident@) {
                Some(value) => leaf(decimal_int(value as int)),
                None => leaf(lval.ident@),
            },
        }
    }
}

impl UnaryExp {
    /// The number of temporaries that the expression takes: one for each
    /// prefix operator.
    pub open spec fn temps(&self) -> nat
        decreases self,
    {
        match self {
            UnaryExp::PExp(primaryexp) => primaryexp.temps(),
            UnaryExp::UExp(_, unaryexp) => unaryexp.temps() + 1,
        }
    }

    /// The lines and the token of the expression.
    pub open spec fn ir(&self, consts: Map<Seq<char>, i32>, count: nat) -> Fragment
        decreases self,
    {
        match self {
            UnaryExp::PExp(primaryexp) => primaryexp.ir(consts, count),
            UnaryExp::UExp(op, unaryexp) => unary_fragment(
                unaryexp.ir(consts, count),
                count + unaryexp.temps(),
                unary_head(*op),
            ),
        }
    }
}

impl MulExp {
    /// The number of temporaries that the expression takes: one for each
    /// operator of this layer, besides those of the operands.
    pub open spec fn temps(&self) -> nat
        decreases self,
    {
        match self {
            MulExp::UExp(inner) => inner.temps(),
            MulExp::MExp(lhs, _, rhs) => lhs.temps() + rhs.temps() + 1,
        }
    }

    /// The lines and the token of the expression: the left operand's lines,
    /// the right operand's, then the operator's.
    pub open spec fn ir(&self, consts: Map<Seq<char>, i32>, count: nat) -> Fragment
        decreases self,
    {
        match self {
            MulExp::UExp(inner) => inner.ir(consts, count),
            MulExp::MExp(lhs, op, rhs) => binary_fragment(
                lhs.ir(consts, count),
                rhs.ir(consts, count + lhs.temps()),
                count + lhs.temps() + rhs.temps(),
                mul_mnemonic(*op),
            ),
        }
    }
}

impl AddExp {
    /// The number of temporaries that the expression takes: one for each
    /// operator of this layer, besides those of the operands.
    pub open spec fn temps(&self) -> nat
        decreases self,
    {
        match self {
            AddExp::MExp(inner) => inner.temps(),
            AddExp::AExp(lhs, _, rhs) => lhs.temps() + rhs.temps() + 1,
        }
    }

    /// The lines and the token of the expression: the left operand's lines,
    /// the right operand's, then the operator's.
    pub open spec fn ir(&self, consts: Map<Seq<char>, i32>, count: nat) -> Fragment
        decreases self,
    {
        match self {
            AddExp::MExp(inner) => inner.ir(consts, count),
            AddExp::AExp(lhs, op, rhs) => binary_fragment(
                lhs.ir(consts, count),
                rhs.ir(consts, count + lhs.temps()),
                count + lhs.temps() + rhs.temps(),
                add_mnemonic(*op),
            ),
        }
    }
}

impl RelExp {
    /// The number of temporaries that the expression takes: one for each
    /// operator of this layer, besides those of the operands.
    pub open spec fn temps(&self) -> nat
        decreases self,
    {
        match self {
            RelExp::AExp(inner) => inner.temps(),
            RelExp::RExp(lhs, _, rhs) => lhs.temps() + rhs.temps() + 1,
        }
    }

    /// The lines and the token of the expression: the left operand's lines,
    /// the right operand's, then the operator's.
    pub open spec fn ir(&self, consts: Map<Seq<char>, i32>, count: nat) -> Fragment
        decreases self,
    {
        match self {
            RelExp::AExp(inner) => inner.ir(consts, count),
            RelExp::RExp(lhs, op, rhs) => binary_fragment(
                lhs.ir(consts, count),
                rhs.ir(consts, count + lhs.temps()),
                count + lhs.temps() + rhs.temps(),
                rel_mnemonic(*op),
            ),
        }
    }
}

impl EqExp {
    /// The number of temporaries that the expression takes: one for each
    /// operator of this layer, besides those of the operands.
    pub open spec fn temps(&self) -> nat
        decreases self,
    {
        match self {
            EqExp::RExp(inner) => inner.temps(),
            EqExp::EExp(lhs, _, rhs) => lhs.temps() + rhs.temps() + 1,
        }
    }

    /// The lines and the token of the expression: the left operand's lines,
    /// the right operand's, then the operator's.
    pub open spec fn ir(&self, consts: Map<Seq<char>, i32>, count: nat) -> Fragment
        decreases self,
    {
        match self {
            EqExp::RExp(inner) => inner.ir(consts, count),
            EqExp::EExp(lhs, op, rhs) => binary_fragment(
                lhs.ir(consts, count),
                rhs.ir(consts, count + lhs.temps()),
                count + lhs.temps() + rhs.temps(),
                eq_mnemonic(*op),
            ),
        }
    }
}

impl LAndExp {
    /// The number of temporaries that the expression takes: three for each
    /// operator of this layer, besides those of the operands.
    pub open spec fn temps(&self) -> nat
        decreases self,
    {
        match self {
            LAndExp::EExp(inner) => inner.temps(),
            LAndExp::LAExp(lhs, rhs) => lhs.temps() + rhs.temps() + 3,
        }
    }

    /// The lines and the token of the expression: the left operand's lines,
    /// the right operand's, then the operator's.
    pub open spec fn ir(&self, consts: Map<Seq<char>, i32>, count: nat) -> Fragment
        decreases self,
    {
        match self {
            LAndExp::EExp(inner) => inner.ir(consts, count),
            LAndExp::LAExp(lhs, rhs) => logic_fragment(
                lhs.ir(consts, count),
                rhs.ir(consts, count + lhs.temps()),
                count + lhs.temps() + rhs.temps(),
                "and"@,
            ),
        }
    }
}

impl LOrExp {
    /// The number of temporaries that the expression takes: three for each
    /// operator of this layer, besides those of the operands.
    pub open spec fn temps(&self) -> nat
        decreases self,
    {
        match self {
            LOrExp::LAExp(inner) => inner.temps(),
            LOrExp::LOExp(lhs, rhs) => lhs.temps() + rhs.temps() + 3,
        }
    }

    /// The lines and the token of the expression: the left operand's lines,
    /// the right operand's, then the operator's.
    pub open spec fn ir(&self, consts: Map<Seq<char>, i32>, count: nat) -> Fragment
        decreases self,
    {
        match self {
            LOrExp::LAExp(inner) => inner.ir(consts, count),
            LOrExp::LOExp(lhs, rhs) => logic_fragment(
                lhs.ir(consts, count),
                rhs.ir(consts, count + lhs.temps()),
                count + lhs.temps() + rhs.temps(),
                "or"@,
            ),
        }
    }
}

/// Lowering of a construct under a context.
pub trait IR {
    /// The outcome of lowering the construct from state `st`.
    spec fn lowered(&self, st: LowerState) -> Result<Lowered, LowerError>;

    /// Lowers the construct. A failed call leaves the context as it was; a
    /// call that succeeds undoes no binding.
    fn irdump(&self, ctx: &mut LowerCtx) -> (r: Result<Retpair, LowerError>)
        ensures
            lowering_agrees(r, old(ctx)@, final(ctx)@, self.lowered(old(ctx)@)),
            final(ctx).consts.grew_from(old(ctx).consts),
    ;
}

impl IR for Exp {
    open spec fn lowered(&self, st: LowerState) -> Result<Lowered, LowerError> {
        expr_lowered(self.temps(), self.ir(st.consts, st.count), st)
    }

    fn irdump(&self, ctx: &mut LowerCtx) -> (r: Result<Retpair, LowerError>)
        decreases self,
    {
        self.lorexp.irdump(ctx)
    }
}

impl IR for PrimaryExp {
    open spec fn lowered(&self, st: LowerState) -> Result<Lowered, LowerError> {
        expr_lowered(self.temps(), self.ir(st.consts, st.count), st)
    }

    fn irdump(&self, ctx: &mut LowerCtx) -> (r: Result<Retpair, LowerError>)
        decreases self,
    {
        proof {
            ctx.consts.lemma_grew_reflexive();
        }
        match self {
            PrimaryExp::Exp(exp) => exp.irdump(ctx),
            PrimaryExp::Number(num) => Ok(
                Retpair { irstr: String::new(), varstr: decimal_string(*num) },
            ),
            PrimaryExp::LVal(lval) => match ctx.consts.get(&lval.ident) {
                Some(value) => Ok(Retpair { irstr: String::new(), varstr: decimal_string(value) }),
                None => Ok(Retpair { irstr: String::new(), varstr: lval.ident.clone() }),
            },
        }
    }
}

impl IR for UnaryExp {
    open spec fn lowered(&self, st: LowerState) -> Result<Lowered, LowerError> {
        expr_lowered(self.temps(), self.ir(st.consts, st.count), st)
    }

    fn irdump(&self, ctx: &mut LowerCtx) -> (r: Result<Retpair, LowerError>)
        decreases self,
    {
        match self {
            UnaryExp::PExp(primaryexp) => primaryexp.irdump(ctx),
            UnaryExp::UExp(op, unaryexp) => {
                let entry = ctx.count;
                let a = match unaryexp.irdump(ctx) {
                    Ok(a) => a,
                    Err(e) => {
                        return Err(e);
                    },
                };
                match ctx.take(1) {
                    Some(n) => Ok(lower_unary(a, n, op.head())),
                    None => {
                        ctx.count = entry;
                        Err(LowerError::TemporariesExhausted)
                    },
                }
            },
        }
    }
}

impl IR for MulExp {
    open spec fn lowered(&self, st: LowerState) -> Result<Lowered, LowerError> {
        expr_lowered(self.temps(), self.ir(st.consts, st.count), st)
    }

    fn irdump(&self, ctx: &mut LowerCtx) -> (r: Result<Retpair, LowerError>)
        decreases self,
    {
        match self {
            MulExp::UExp(inner) => inner.irdump(ctx),
            MulExp::MExp(lhs, op, rhs) => {
                let entry = ctx.count;
                let a = match lhs.irdump(ctx) {
                    Ok(a) => a,
                    Err(e) => {
                        return Err(e);
                    },
                };
                let ghost middle = ctx.consts;
                let b = rhs.irdump(ctx);
                proof {
                    ctx.consts.lemma_grew_transitive(middle, old(ctx).consts);
                }
                let b = match b {
                    Ok(b) => b,
                    Err(e) => {
                        ctx.count = entry;
                        return Err(e);
                    },
                };
                match ctx.take(1) {
                    Some(n) => Ok(lower_binary(a, b, n, op.mnemonic())),
                    None => {
                        ctx.count = entry;
                        Err(LowerError::TemporariesExhausted)
                    },
                }
            },
        }
    }
}

impl IR for AddExp {
    open spec fn lowered(&self, st: LowerState) -> Result<Lowered, LowerError> {
        expr_lowered(self.temps(), self.ir(st.consts, st.count), st)
    }

    fn irdump(&self, ctx: &mut LowerCtx) -> (r: Result<Retpair, LowerError>)
        decreases self,
    {
        match self {
            AddExp::MExp(inner) => inner.irdump(ctx),
            AddExp::AExp(lhs, op, rhs) => {
                let entry = ctx.count;
                let a = match lhs.irdump(ctx) {
                    Ok(a) => a,
                    Err(e) => {
                        return Err(e);
                    },
                };
                let ghost middle = ctx.consts;
                let b = rhs.irdump(ctx);
                proof {
                    ctx.consts.lemma_grew_transitive(middle, old(ctx).consts);
                }
                let b = match b {
                    Ok(b) => b,
                    Err(e) => {
                        ctx.count = entry;
                        return Err(e);
                    },
                };
                match ctx.take(1) {
                    Some(n) => Ok(lower_binary(a, b, n, op.mnemonic())),
                    None => {
                        ctx.count = entry;
                        Err(LowerError::TemporariesExhausted)
                    },
                }
            },
        }
    }
}

impl IR for RelExp {
    open spec fn lowered(&self, st: LowerState) -> Result<Lowered, LowerError> {
        expr_lowered(self.temps(), self.ir(st.consts, st.count), st)
    }

    fn irdump(&self, ctx: &mut LowerCtx) -> (r: Result<Retpair, LowerError>)
        decreases self,
    {
        match self {
            RelExp::AExp(inner) => inner.irdump(ctx),
            RelExp::RExp(lhs, op, rhs) => {
                let entry = ctx.count;
                let a = match lhs.irdump(ctx) {
                    Ok(a) => a,
                    Err(e) => {
                        return Err(e);
                    },
                };
                let ghost middle = ctx.consts;
                let b = rhs.irdump(ctx);
                proof {
                    ctx.consts.lemma_grew_transitive(middle, old(ctx).consts);
                }
                let b = match b {
                    Ok(b) => b,
                    Err(e) => {
                        ctx.count = entry;
                        return Err(e);
                    },
                };
                match ctx.take(1) {
                    Some(n) => Ok(lower_binary(a, b, n, op.mnemonic())),
                    None => {
                        ctx.count = entry;
                        Err(LowerError::TemporariesExhausted)
                    },
                }
            },
        }
    }
}

impl IR for EqExp {
    open spec fn lowered(&self, st: LowerState) -> Result<Lowered, LowerError> {
        expr_lowered(self.temps(), self.ir(st.consts, st.count), st)
    }

    fn irdump(&self, ctx: &mut LowerCtx) -> (r: Result<Retpair, LowerError>)
        decreases self,
    {
        match self {
            EqExp::RExp(inner) => inner.irdump(ctx),
            EqExp::EExp(lhs, op, rhs) => {
                let entry = ctx.count;
                let a = match lhs.irdump(ctx) {
                    Ok(a) => a,
                    Err(e) => {
                        return Err(e);
                    },
                };
                let ghost middle = ctx.consts;
                let b = rhs.irdump(ctx);
                proof {
                    ctx.consts.lemma_grew_transitive(middle, old(ctx).consts);
                }
                let b = match b {
                    Ok(b) => b,
                    Err(e) => {
                        ctx.count = entry;
                        return Err(e);
                    },
                };
                match ctx.take(1) {
                    Some(n) => Ok(lower_binary(a, b, n, op.mnemonic())),
                    None => {
                        ctx.count = entry;
                        Err(LowerError::TemporariesExhausted)
                    },
                }
            },
        }
    }
}

impl IR for LAndExp {
    open spec fn lowered(&self, st: LowerState) -> Result<Lowered, LowerError> {
        expr_lowered(self.temps(), self.ir(st.consts, st.count), st)
    }

    fn irdump(&self, ctx: &mut LowerCtx) -> (r: Result<Retpair, LowerError>)
        decreases self,
    {
        match self {
            LAndExp::EExp(inner) => inner.irdump(ctx),
            LAndExp::LAExp(lhs, rhs) => {
                let entry = ctx.count;
                let a = match lhs.irdump(ctx) {
                    Ok(a) => a,
                    Err(e) => {
                        return Err(e);
                    },
                };
                let ghost middle = ctx.consts;
                let b = rhs.irdump(ctx);
                proof {
                    ctx.consts.lemma_grew_transitive(middle, old(ctx).consts);
                }
                let b = match b {
                    Ok(b) => b,
                    Err(e) => {
                        ctx.count = entry;
                        return Err(e);
                    },
                };
                match ctx.take(3) {
                    Some(n) => Ok(lower_logic(a, b, n, "and")),
                    None => {
                        ctx.count = entry;
                        Err(LowerError::TemporariesExhausted)
                    },
                }
            },
        }
    }
}

impl IR for LOrExp {
    open spec fn lowered(&self, st: LowerState) -> Result<Lowered, LowerError> {
        expr_lowered(self.temps(), self.ir(st.consts, st.count), st)
    }

    fn irdump(&self, ctx: &mut LowerCtx) -> (r: Result<Retpair, LowerError>)
        decreases self,
    {
        match self {
            LOrExp::LAExp(inner) => inner.irdump(ctx),
            LOrExp::LOExp(lhs, rhs) => {
                let entry = ctx.count;
                let a = match lhs.irdump(ctx) {
                    Ok(a) => a,
                    Err(e) => {
                        return Err(e);
                    },
                };
                let ghost middle = ctx.consts;
                let b = rhs.irdump(ctx);
                proof {
                    ctx.consts.lemma_grew_transitive(middle, old(ctx).consts);
                }
                let b = match b {
                    Ok(b) => b,
                    Err(e) => {
                        ctx.count = entry;
                        return Err(e);
                    },
                };
                match ctx.take(3) {
                    Some(n) => Ok(lower_logic(a, b, n, "or")),
                    None => {
                        ctx.count = entry;
                        Err(LowerError::TemporariesExhausted)
                    },
                }
            },
        }
    }
}

impl IR for UnaryOp {
    open spec fn lowered(&self, st: LowerState) -> Result<Lowered, LowerError> {
        plain(unary_head(*self), st)
    }

    fn irdump(&self, ctx: &mut LowerCtx) -> (r: Result<Retpair, LowerError>) {
        proof {
            ctx.consts.lemma_grew_reflexive();
        }
        Ok(Retpair { irstr: String::from_str(self.head()), varstr: String::new() })
    }
}

impl IR for MulOp {
    open spec fn lowered(&self, st: LowerState) -> Result<Lowered, LowerError> {
        plain(mul_mnemonic(*self), st)
    }

    fn irdump(&self, ctx: &mut LowerCtx) -> (r: Result<Retpair, LowerError>) {
        proof {
            ctx.consts.lemma_grew_reflexive();
        }
        Ok(Retpair { irstr: String::from_str(self.mnemonic()), varstr: String::new() })
    }
}

impl IR for AddOp {
    open spec fn lowered(&self, st: LowerState) -> Result<Lowered, LowerError> {
        plain(add_mnemonic(*self), st)
    }

    fn irdump(&self, ctx: &mut LowerCtx) -> (r: Result<Retpair, LowerError>) {
        proof {
            ctx.consts.lemma_grew_reflexive();
        }
        Ok(Retpair { irstr: String::from_str(self.mnemonic()), varstr: String::new() })
    }
}

impl IR for RelOp {
    open spec fn lowered(&self, st: LowerState) -> Result<Lowered, LowerError> {
        plain(rel_mnemonic(*self), st)
    }

    fn irdump(&self, ctx: &mut LowerCtx) -> (r: Result<Retpair, LowerError>) {
        proof {
            ctx.consts.lemma_grew_reflexive();
        }
        Ok(Retpair { irstr: String::from_str(self.mnemonic()), varstr: String::new() })
    }
}

impl IR for EqOp {
    open spec fn lowered(&self, st: LowerState) -> Result<Lowered, LowerError> {
        plain(eq_mnemonic(*self), st)
    }

    fn irdump(&self, ctx: &mut LowerCtx) -> (r: Result<Retpair, LowerError>) {
        proof {
            ctx.consts.lemma_grew_reflexive();
        }
        Ok(Retpair { irstr: String::from_str(self.mnemonic()), varstr: String::new() })
    }
}

impl IR for FuncType {
    open spec fn lowered(&self, st: LowerState) -> Result<Lowered, LowerError> {
        plain("i32"@, st)
    }

    fn irdump(&self, ctx: &mut LowerCtx) -> (r: Result<Retpair, LowerError>) {
        proof {
            ctx.consts.lemma_grew_reflexive();
        }
        match self {
            FuncType::Int => Ok(Retpair { irstr: String::from_str("i32"), varstr: String::new() }),
        }
    }
}

impl IR for ConstDef {
    /// The initializer is folded and the name bound to its value; nothing is
    /// emitted. An initializer that is no constant, or that divides by zero,
    /// is an error.
    open spec fn lowered(&self, st: LowerState) -> Result<Lowered, LowerError> {
        match self.constinitval.constexp.folded(st.consts) {
            Ok(Some(value)) => Ok(
                Lowered {
                    text: Seq::empty(),
                    name: Seq::empty(),
                    state: LowerState {
                        count: st.count,
                        consts: st.consts.insert(self.ident@, value),
                    },
                },
            ),
            Ok(None) => Err(LowerError::NotConstant),
            Err(_) => Err(LowerError::DivisionByZero),
        }
    }

    fn irdump(&self, ctx: &mut LowerCtx) -> (r: Result<Retpair, LowerError>) {
        proof {
            ctx.consts.lemma_grew_reflexive();
        }
        match self.constinitval.constexp.eval(&ctx.consts) {
            Ok(Some(value)) => {
                ctx.consts.insert(self.ident.clone(), value);
                Ok(Retpair { irstr: String::new(), varstr: String::new() })
            },
            Ok(None) => Err(LowerError::NotConstant),
            Err(_) => Err(LowerError::DivisionByZero),
        }
    }
}

/// The state after the definitions from index `i` on, taken in order, or the
/// first error among them.
pub open spec fn defs_lowered(defs: Seq<ConstDef>, i: int, st: LowerState) -> Result<
    LowerState,
    LowerError,
>
    decreases defs.len() - i,
{
    if i < 0 || i >= defs.len() {
        Ok(st)
    } else {
        match defs[i].lowered(st) {
            Ok(l) => defs_lowered(defs, i + 1, l.state),
            Err(e) => Err(e),
        }
    }
}

impl IR for ConstDecl {
    /// The definitions are lowered in order; nothing is emitted.
    open spec fn lowered(&self, st: LowerState) -> Result<Lowered, LowerError> {
        match defs_lowered(self.constdefs@, 0, st) {
            Ok(state) => Ok(Lowered { text: Seq::empty(), name: Seq::empty(), state }),
            Err(e) => Err(e),
        }
    }

    fn irdump(&self, ctx: &mut LowerCtx) -> (r: Result<Retpair, LowerError>) {
        let mark = ctx.consts.len();
        let mut i: usize = 0;
        proof {
            ctx.consts.lemma_grew_reflexive();
        }
        while i < self.constdefs.len()
            invariant
                i <= self.constdefs.len(),
                mark == old(ctx).consts.bindings().len(),
                ctx.consts.grew_from(old(ctx).consts),
                ctx.count == old(ctx).count,
                defs_lowered(self.constdefs@, 0, old(ctx)@) == defs_lowered(
                    self.constdefs@,
                    i as int,
                    ctx@,
                ),
            decreases self.constdefs.len() - i,
        {
            let ghost middle = ctx.consts;
            let def = self.constdefs[i].irdump(ctx);
            proof {
                ctx.consts.lemma_grew_transitive(middle, old(ctx).consts);
                ctx.consts.lemma_grew_is_longer(old(ctx).consts);
            }
            match def {
                Ok(_) => {},
                Err(e) => {
                    let ghost current = ctx.consts;
                    ctx.consts.truncate(mark);
                    proof {
                        ctx.consts.lemma_truncated_is_earlier(current, old(ctx).consts);
                    }
                    return Err(e);
                },
            }
            i = i + 1;
        }
        Ok(Retpair { irstr: String::new(), varstr: String::new() })
    }
}

impl IR for Decl {
    /// A constant declaration is lowered; a variable declaration has no
    /// lowering.
    open spec fn lowered(&self, st: LowerState) -> Result<Lowered, LowerError> {
        match self {
            Decl::CDecl(constdecl) => constdecl.lowered(st),
            Decl::VDecl(_) => Err(LowerError::Unsupported),
        }
    }

    fn irdump(&self, ctx: &mut LowerCtx) -> (r: Result<Retpair, LowerError>) {
        proof {
            ctx.consts.lemma_grew_reflexive();
        }
        match self {
            Decl::CDecl(constdecl) => constdecl.irdump(ctx),
            Decl::VDecl(_) => Err(LowerError::Unsupported),
        }
    }
}

impl IR for Stmt {
    /// No statement has a lowering.
    open spec fn lowered(&self, st: LowerState) -> Result<Lowered, LowerError> {
        Err(LowerError::Unsupported)
    }

    fn irdump(&self, ctx: &mut LowerCtx) -> (r: Result<Retpair, LowerError>) {
        proof {
            ctx.consts.lemma_grew_reflexive();
        }
        Err(LowerError::Unsupported)
    }
}

impl IR for BlockItem {
    open spec fn lowered(&self, st: LowerState) -> Result<Lowered, LowerError> {
        match self {
            BlockItem::Decl(decl) => decl.lowered(st),
            BlockItem::Stmt(stmt) => stmt.lowered(st),
        }
    }

    fn irdump(&self, ctx: &mut LowerCtx) -> (r: Result<Retpair, LowerError>) {
        match self {
            BlockItem::Decl(decl) => decl.irdump(ctx),
            BlockItem::Stmt(stmt) => stmt.irdump(ctx),
        }
    }
}

/// The items from index `i` on, lowered in order: their lines behind `acc`,
/// and the state they leave, or the first error among them.
pub open spec fn items_lowered(items: Seq<BlockItem>, i: int, acc: Seq<char>, st: LowerState) -> Result<
    Lowered,
    LowerError,
>
    decreases items.len() - i,
{
    if i < 0 || i >= items.len() {
        Ok(Lowered { text: acc, name: Seq::empty(), state: st })
    } else {
        match items[i].lowered(st) {
            Ok(l) => items_lowered(items, i + 1, acc + l.text, l.state),
            Err(e) => Err(e),
        }
    }
}

impl IR for Block {
    /// The label of the entry block, the lines of the items in order, and an
    /// empty line. The token is the label.
    open spec fn lowered(&self, st: LowerState) -> Result<Lowered, LowerError> {
        match items_lowered(self.items@, 0, Seq::empty(), st) {
            Ok(l) => Ok(
                Lowered { text: "%entry: \n"@ + l.text + "\n"@, name: "%entry"@, state: l.state },
            ),
            Err(e) => Err(e),
        }
    }

    fn irdump(&self, ctx: &mut LowerCtx) -> (r: Result<Retpair, LowerError>) {
        let mark = ctx.consts.len();
        let entry = ctx.count;
        let mut its = String::new();
        let mut i: usize = 0;
        proof {
            ctx.consts.lemma_grew_reflexive();
        }
        while i < self.items.len()
            invariant
                i <= self.items.len(),
                mark == old(ctx).consts.bindings().len(),
                entry == old(ctx).count,
                ctx.consts.grew_from(old(ctx).consts),
                items_lowered(self.items@, 0, Seq::empty(), old(ctx)@) == items_lowered(
                    self.items@,
                    i as int,
                    its@,
                    ctx@,
                ),
            decreases self.items.len() - i,
        {
            let ghost middle = ctx.consts;
            let item = self.items[i].irdump(ctx);
            proof {
                ctx.consts.lemma_grew_transitive(middle, old(ctx).consts);
                ctx.consts.lemma_grew_is_longer(old(ctx).consts);
            }
            match item {
                Ok(item) => {
                    its.append(item.irstr.as_str());
                },
                Err(e) => {
                    let ghost current = ctx.consts;
                    ctx.consts.truncate(mark);
                    ctx.count = entry;
                    proof {
                        ctx.consts.lemma_truncated_is_earlier(current, old(ctx).consts);
                    }
                    return Err(e);
                },
            }
            i = i + 1;
        }
        let mut irstr = String::from_str("%entry: \n");
        irstr.append(its.as_str());
        irstr.append("\n");
        Ok(Retpair { irstr, varstr: String::from_str("%entry") })
    }
}

/// The text of a function: its header, the lines of its block, and the
/// closing brace.
pub open spec fn function_text(ident: Seq<char>, ty: Seq<char>, block: Seq<char>) -> Seq<char> {
    "fun @"@ + ident + "(): "@ + ty + " {\n"@ + block + "}\n"@
}

impl IR for FuncDef {
    /// The counter of temporaries starts at zero in each function; the
    /// constants carry over. The token is the function's name.
    open spec fn lowered(&self, st: LowerState) -> Result<Lowered, LowerError> {
        match self.block.lowered(LowerState { count: 0, consts: st.consts }) {
            Ok(l) => Ok(
                Lowered {
                    text: function_text(self.ident@, "i32"@, l.text),
                    name: self.ident@,
                    state: l.state,
                },
            ),
            Err(e) => Err(e),
        }
    }

    fn irdump(&self, ctx: &mut LowerCtx) -> (r: Result<Retpair, LowerError>) {
        let entry = ctx.count;
        ctx.count = 0;
        let ty = match self.func_type.irdump(ctx) {
            Ok(ty) => ty,
            Err(e) => {
                ctx.count = entry;
                return Err(e);
            },
        };
        let ghost middle = ctx.consts;
        let block = self.block.irdump(ctx);
        proof {
            ctx.consts.lemma_grew_transitive(middle, old(ctx).consts);
        }
        let block = match block {
            Ok(block) => block,
            Err(e) => {
                ctx.count = entry;
                return Err(e);
            },
        };
        let mut irstr = String::from_str("fun @");
        irstr.append(self.ident.as_str());
        irstr.append("(): ");
        irstr.append(ty.irstr.as_str());
        irstr.append(" {\n");
        irstr.append(block.irstr.as_str());
        irstr.append("}\n");
        Ok(Retpair { irstr, varstr: self.ident.clone() })
    }
}

impl IR for CompUnit {
    open spec fn lowered(&self, st: LowerState) -> Result<Lowered, LowerError> {
        self.func_def.lowered(st)
    }

    fn irdump(&self, ctx: &mut LowerCtx) -> (r: Result<Retpair, LowerError>) {
        self.func_def.irdump(ctx)
    }
}

/// Lowers a compilation unit in a context of its own and returns its text.
pub fn lower(unit: &CompUnit) -> (r: Result<String, LowerError>)
    ensures
        match unit.lowered(LowerState { count: 0, consts: Map::empty() }) {
            Ok(l) => r is Ok && r->Ok_0@ == l.text,
            Err(e) => r is Err && r->Err_0 == e,
        },
{
    let mut ctx = LowerCtx::new();
    match unit.irdump(&mut ctx) {
        Ok(pair) => Ok(pair.irstr),
        Err(e) => Err(e),
    }
}

/// A logical conjunction takes three temporaries beyond those of its
/// operands and adds three lines to theirs, whatever the operands are: two
/// comparisons with zero and one `and`. The last of the three temporaries
/// holds the result.
pub proof fn lemma_conjunction_takes_three(e: LAndExp, consts: Map<Seq<char>, i32>, count: nat)
    requires
        e is LAExp,
    ensures
        ({
            let lhs = e->LAExp_0;
            let rhs = e->LAExp_1;
            let a = lhs.ir(consts, count);
            let b = rhs.ir(consts, count + lhs.temps());
            let n = count + lhs.temps() + rhs.temps();
            &&& e.temps() == lhs.temps() + rhs.temps() + 3
            &&& e.ir(consts, count).text == a.text + b.text + (binary_line(n, "ne"@, "0"@, a.name)
                + binary_line(n + 1, "ne"@, "0"@, b.name) + binary_line(
                n + 2,
                "and"@,
                temp_name(n),
                temp_name(n + 1),
            ))
            &&& e.ir(consts, count).name == temp_name(n + 2)
        }),
{
}

/// A logical disjunction takes three temporaries beyond those of its
/// operands and adds three lines to theirs, whatever the operands are: two
/// comparisons with zero and one `or`. The last of the three temporaries
/// holds the result.
pub proof fn lemma_disjunction_takes_three(e: LOrExp, consts: Map<Seq<char>, i32>, count: nat)
    requires
        e is LOExp,
    ensures
        ({
            let lhs = e->LOExp_0;
            let rhs = e->LOExp_1;
            let a = lhs.ir(consts, count);
            let b = rhs.ir(consts, count + lhs.temps());
            let n = count + lhs.temps() + rhs.temps();
            &&& e.temps() == lhs.temps() + rhs.temps() + 3
            &&& e.ir(consts, count).text == a.text + b.text + (binary_line(n, "ne"@, "0"@, a.name)
                + binary_line(n + 1, "ne"@, "0"@, b.name) + binary_line(
                n + 2,
                "or"@,
                temp_name(n),
                temp_name(n + 1),
            ))
            &&& e.ir(consts, count).name == temp_name(n + 2)
        }),
{
}

/// Whether every item is a constant declaration.
pub open spec fn declarations_only(items: Seq<BlockItem>) -> bool {
    forall|i: int|
        0 <= i < items.len() ==> (#[trigger] items[i]) is Decl && items[i]->Decl_0 is CDecl
}

/// Constant declarations that lower add nothing to the text.
pub proof fn lemma_declarations_emit_nothing(
    items: Seq<BlockItem>,
    i: int,
    acc: Seq<char>,
    st: LowerState,
)
    requires
        declarations_only(items),
        items_lowered(items, i, acc, st) is Ok,
    ensures
        items_lowered(items, i, acc, st)->Ok_0.text == acc,
    decreases items.len() - i,
{
    if 0 <= i < items.len() {
        assert(items[i] is Decl && items[i]->Decl_0 is CDecl);
        let l = items[i].lowered(st)->Ok_0;
        assert(l.text =~= Seq::<char>::empty());
        assert(acc + l.text =~= acc);
        lemma_declarations_emit_nothing(items, i + 1, acc + l.text, l.state);
    }
}

/// A function whose body holds constant declarations alone, all of which
/// lower, is its header, the label of the entry block, an empty line and the
/// closing brace: no instruction is emitted. The token is its name.
pub proof fn lemma_declaration_only_function(f: FuncDef, st: LowerState)
    requires
        declarations_only(f.block.items@),
        f.lowered(st) is Ok,
    ensures
        f.lowered(st)->Ok_0.text == function_text(f.ident@, "i32"@, "%entry: \n"@ + "\n"@),
        f.lowered(st)->Ok_0.name == f.ident@,
{
    let inner = LowerState { count: 0, consts: st.consts };
    lemma_declarations_emit_nothing(f.block.items@, 0, Seq::empty(), inner);
    assert("%entry: \n"@ + Seq::<char>::empty() =~= "%entry: \n"@);
}

/// A successful lowering of an expression moves the counter by the number of
/// temporaries of the expression and by nothing else, and leaves the
/// constants as they were.
pub proof fn lemma_expression_moves_counter(e: Exp, st: LowerState)
    requires
        e.lowered(st) is Ok,
    ensures
        e.lowered(st)->Ok_0.state.count == st.count + e.temps(),
        e.lowered(st)->Ok_0.state.consts == st.consts,
{
}

} // verus!
