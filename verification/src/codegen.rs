//! Instruction selection: from the values of the intermediate representation
//! to assembly text.
//!
//! Each value is given a register name the first time it is visited and is
//! never emitted again. Temporary registers `t0, t1, ..` are numbered from a
//! counter that only grows over the whole program.

use std::collections::HashMap;
use vstd::prelude::*;
use vstd::string::*;
use crate::text::{append_decimal, append_decimal_i32, decimal_int, decimal_nat};

verus! {

/// The binary operations of the intermediate representation.
#[derive(Debug, Clone, Copy, PartialEq, Eq, Structural)]
pub enum BinaryOp {
    NotEq,
    Eq,
    Gt,
    Lt,
    Ge,
    Le,
    Add,
    Sub,
    Mul,
    Div,
    Mod,
    And,
    Or,
    Xor,
}

/// What a value is. Operands and returned values are indices into the
/// program's table of values.
#[derive(Debug, Clone, Copy, PartialEq, Eq, Structural)]
pub enum ValueKind {
    Integer(i32),
    Return(usize),
    Binary(BinaryOp, usize, usize),
}

/// A function: its name, with the one-character sigil in front, and its
/// instructions in layout order over all its blocks.
#[derive(Debug)]
pub struct IrFunction {
    pub name: String,
    pub insts: Vec<usize>,
}

/// A program: the table of all values, and the functions in layout order.
#[derive(Debug)]
pub struct IrProgram {
    pub values: Vec<ValueKind>,
    pub funcs: Vec<IrFunction>,
}

/// A register name: the hard-wired zero register or a numbered temporary.
#[derive(Debug, Clone, Copy, PartialEq, Eq, Structural)]
pub enum Reg {
    Zero,
    Temp(u32),
}

/// Why a program could not be emitted.
#[derive(Debug, Clone, Copy, PartialEq, Eq, Structural)]
pub enum EmitError {
    /// The program's tables do not fit together.
    Malformed,
    /// A return of a value that has no register and is no literal.
    UnresolvedReturn,
    /// The counter of temporaries would pass its largest value.
    TemporariesExhausted,
}

/// The state of an emission, as values: the register of each value visited
/// so far, and the number of the next temporary.
pub struct EmitState {
    pub names: Map<usize, Reg>,
    pub count: nat,
}

/// The state that an emission threads through its steps.
pub struct EmitCtx {
    pub names: HashMap<usize, Reg>,
    pub count: u32,
}

impl View for EmitCtx {
    type V = EmitState;

    open spec fn view(&self) -> EmitState {
        EmitState { names: self.names@, count: self.count as nat }
    }
}

/// The outcome of a step: its text and the state it leaves.
pub struct Emitted {
    pub text: Seq<char>,
    pub state: EmitState,
}

/// The text of a register name.
pub open spec fn reg_text(r: Reg) -> Seq<char> {
    match r {
        Reg::Zero => "x0"@,
        Reg::Temp(n) => "t"@ + decimal_nat(n as nat),
    }
}

/// The line that loads an immediate into the register named `dst`.
pub open spec fn load_line(dst: Seq<char>, n: i32) -> Seq<char> {
    "  li    "@ + dst + ", "@ + decimal_int(n as int) + "\n"@
}

/// An instruction line with a destination and two sources. `head` is the
/// indent and the padded mnemonic.
pub open spec fn three_line(head: Seq<char>, d: Reg, l: Reg, r: Reg) -> Seq<char> {
    head + reg_text(d) + ", "@ + reg_text(l) + ", "@ + reg_text(r) + "\n"@
}

/// An instruction line with a destination and one source.
pub open spec fn two_line(head: Seq<char>, d: Reg, s: Reg) -> Seq<char> {
    head + reg_text(d) + ", "@ + reg_text(s) + "\n"@
}

/// The instructions selected for a binary operation with destination `d` and
/// operands in `l` and `r`. Multiplication, division and remainder all select
/// `mul`. The two equality tests read the right operand only. `Le` and `Ge`
/// take two instructions: the opposite strict comparison, then its negation.
pub open spec fn select(op: BinaryOp, d: Reg, l: Reg, r: Reg) -> Seq<char> {
    match op {
        BinaryOp::Sub => three_line("  sub   "@, d, l, r),
        BinaryOp::Xor => three_line("  xor   "@, d, l, r),
        BinaryOp::Eq => two_line("  seqz  "@, d, r),
        BinaryOp::NotEq => two_line("  snez  "@, d, r),
        BinaryOp::Add => three_line("  add   "@, d, l, r),
        BinaryOp::Mul => three_line("  mul   "@, d, l, r),
        BinaryOp::Div => three_line("  mul   "@, d, l, r),
        BinaryOp::Mod => three_line("  mul   "@, d, l, r),
        BinaryOp::Lt => three_line("  slt   "@, d, l, r),
        BinaryOp::Gt => three_line("  sgt   "@, d, l, r),
        BinaryOp::Le => three_line("  sgt   "@, d, l, r) + two_line("  seqz  "@, d, d),
        BinaryOp::Ge => three_line("  slt   "@, d, l, r) + two_line("  seqz  "@, d, d),
        BinaryOp::And => three_line("  and   "@, d, l, r),
        BinaryOp::Or => three_line("  or    "@, d, l, r),
    }
}

/// A return of the value held in `r`.
pub open spec fn return_move(r: Reg) -> Seq<char> {
    "  mv    a0, "@ + reg_text(r) + "\n  ret"@
}

/// A return of a literal that has no register yet.
pub open spec fn return_load(n: i32) -> Seq<char> {
    load_line("a0"@, n) + "  ret"@
}

/// The export directive and the label of a function: its name without the
/// sigil.
pub open spec fn function_header(name: Seq<char>) -> Seq<char> {
    "  .globl "@ + name.subrange(1, name.len() as int) + "\n"@ + name.subrange(
        1,
        name.len() as int,
    ) + ":\n"@
}

/// Whether value `v` fits the table: operands of a binary operation stand
/// before it and are no returns; a returned value is in the table.
pub open spec fn value_wf(values: Seq<ValueKind>, v: int) -> bool {
    match values[v] {
        ValueKind::Integer(_) => true,
        ValueKind::Return(x) => x < values.len(),
        ValueKind::Binary(_, l, r) => l < v && r < v && !(values[l as int] is Return) && !(
        values[r as int] is Return),
    }
}

/// Whether every value fits the table.
pub open spec fn values_wf(values: Seq<ValueKind>) -> bool {
    forall|v: int| 0 <= v < values.len() ==> #[trigger] value_wf(values, v)
}

/// Whether a function fits the table: its name has at least the sigil, and
/// its instructions are in the table.
pub open spec fn function_wf(values: Seq<ValueKind>, f: IrFunction) -> bool {
    &&& f.name@.len() >= 1
    &&& forall|i: int| 0 <= i < f.insts@.len() ==> #[trigger] f.insts@[i] < values.len()
}

/// The registers and the text after value `v`, an integer or a binary
/// operation, is brought into a register from state `st`. A value that has a
/// register is left alone. The literal zero takes the zero register and no
/// instruction. A binary operation brings its left operand and then its
/// right operand into registers first, then takes the next temporary for its
/// result and computes. The counter is not bounded here.
pub open spec fn materialized(values: Seq<ValueKind>, st: EmitState, v: usize) -> Emitted
    decreases v,
{
    if v >= values.len() || st.names.contains_key(v) {
        Emitted { text: Seq::empty(), state: st }
    } else {
        match values[v as int] {
            ValueKind::Integer(n) => {
                if n == 0 {
                    Emitted {
                        text: Seq::empty(),
                        state: EmitState { names: st.names.insert(v, Reg::Zero), count: st.count },
                    }
                } else {
                    Emitted {
                        text: load_line(reg_text(Reg::Temp(st.count as u32)), n),
                        state: EmitState {
                            names: st.names.insert(v, Reg::Temp(st.count as u32)),
                            count: st.count + 1,
                        },
                    }
                }
            },
            ValueKind::Return(_) => Emitted { text: Seq::empty(), state: st },
            ValueKind::Binary(op, l, r) => {
                if l < v && r < v {
                    let a = materialized(values, st, l);
                    let b = materialized(values, a.state, r);
                    let d = Reg::Temp(b.state.count as u32);
                    Emitted {
                        text: a.text + b.text + select(op, d, b.state.names[l], b.state.names[r]),
                        state: EmitState {
                            names: b.state.names.insert(v, d),
                            count: b.state.count + 1,
                        },
                    }
                } else {
                    Emitted { text: Seq::empty(), state: st }
                }
            },
        }
    }
}

/// The outcome of emitting value `v` from state `st`. A value that has a
/// register gives no text and leaves the state as it is. A return moves from
/// the register of the returned value, or loads the returned literal, and
/// fails on anything else. An integer or a binary operation is brought into
/// a register, which fails where the temporaries run out.
pub open spec fn value_emitted(values: Seq<ValueKind>, st: EmitState, v: usize) -> Result<
    Emitted,
    EmitError,
> {
    if st.names.contains_key(v) {
        Ok(Emitted { text: Seq::empty(), state: st })
    } else {
        match values[v as int] {
            ValueKind::Return(x) => {
                if st.names.contains_key(x) {
                    Ok(Emitted { text: return_move(st.names[x]), state: st })
                } else {
                    match values[x as int] {
                        ValueKind::Integer(n) => Ok(Emitted { text: return_load(n), state: st }),
                        _ => Err(EmitError::UnresolvedReturn),
                    }
                }
            },
            _ => {
                let out = materialized(values, st, v);
                if out.state.count > u32::MAX {
                    Err(EmitError::TemporariesExhausted)
                } else {
                    Ok(out)
                }
            },
        }
    }
}

/// The instructions from index `i` on, emitted in order: their text behind
/// `acc` and the state they leave, or the first error among them.
pub open spec fn insts_emitted(
    values: Seq<ValueKind>,
    insts: Seq<usize>,
    i: int,
    acc: Seq<char>,
    st: EmitState,
) -> Result<Emitted, EmitError>
    decreases insts.len() - i,
{
    if i < 0 || i >= insts.len() {
        Ok(Emitted { text: acc, state: st })
    } else {
        match value_emitted(values, st, insts[i]) {
            Ok(e) => insts_emitted(values, insts, i + 1, acc + e.text, e.state),
            Err(e) => Err(e),
        }
    }
}

/// The outcome of emitting a function: its header, then its instructions.
pub open spec fn function_emitted(values: Seq<ValueKind>, f: IrFunction, st: EmitState) -> Result<
    Emitted,
    EmitError,
> {
    insts_emitted(values, f.insts@, 0, function_header(f.name@), st)
}

/// The functions from index `i` on, emitted in order: their text behind `acc`
/// and the state they leave, or the first error among them.
pub open spec fn funcs_emitted(
    values: Seq<ValueKind>,
    funcs: Seq<IrFunction>,
    i: int,
    acc: Seq<char>,
    st: EmitState,
) -> Result<Emitted, EmitError>
    decreases funcs.len() - i,
{
    if i < 0 || i >= funcs.len() {
        Ok(Emitted { text: acc, state: st })
    } else {
        match function_emitted(values, funcs[i], st) {
            Ok(e) => funcs_emitted(values, funcs, i + 1, acc + e.text, e.state),
            Err(e) => Err(e),
        }
    }
}

/// Whether state `after` continues state `before`: the counter is not lower,
/// and every value that had a register has kept it.
pub open spec fn continues(before: EmitState, after: EmitState) -> bool {
    &&& after.count >= before.count
    &&& forall|k: usize| #[trigger]
        before.names.contains_key(k) ==> after.names.contains_key(k) && after.names[k]
            == before.names[k]
}

/// Whether a call's result and the state it left are the expected outcome.
/// A failure leaves a state that continues the one before the call.
pub open spec fn emission_agrees(
    r: Result<String, EmitError>,
    before: EmitState,
    after: EmitState,
    expected: Result<Emitted, EmitError>,
) -> bool {
    match expected {
        Ok(e) => r is Ok && r->Ok_0@ == e.text && after == e.state,
        Err(e) => r is Err && r->Err_0 == e && continues(before, after),
    }
}

/// Bringing a value into a register never lowers the counter, keeps every
/// register that was assigned, assigns registers to the value and to values
/// before it alone, and leaves the value itself with a register.
pub proof fn lemma_materialized_extends(values: Seq<ValueKind>, st: EmitState, v: usize)
    requires
        values_wf(values),
        v < values.len(),
    ensures
        materialized(values, st, v).state.count >= st.count,
        forall|k: usize| #[trigger]
            st.names.contains_key(k) ==> materialized(values, st, v).state.names.contains_key(k)
                && materialized(values, st, v).state.names[k] == st.names[k],
        forall|k: usize| #[trigger]
            materialized(values, st, v).state.names.contains_key(k) ==> st.names.contains_key(k)
                || k <= v,
        !(values[v as int] is Return) ==> materialized(values, st, v).state.names.contains_key(v),
    decreases v,
{
    assert(value_wf(values, v as int));
    if !st.names.contains_key(v) {
        match values[v as int] {
            ValueKind::Binary(op, l, r) => {
                lemma_materialized_extends(values, st, l);
                let a = materialized(values, st, l);
                lemma_materialized_extends(values, a.state, r);
                let b = materialized(values, a.state, r);
                let out = materialized(values, st, v);
                assert forall|k: usize| #[trigger] st.names.contains_key(k) implies out.state.names.contains_key(
                    k,
                ) && out.state.names[k] == st.names[k] by {
                    assert(a.state.names.contains_key(k));
                    assert(b.state.names.contains_key(k));
                }
                assert forall|k: usize| #[trigger]
                    out.state.names.contains_key(k) implies st.names.contains_key(k) || k <= v by {
                    if k != v {
                        assert(b.state.names.contains_key(k));
                        if !a.state.names.contains_key(k) {
                        }
                    }
                }
            },
            _ => {},
        }
    }
}

/// Computes `reg_text`.
pub fn reg_string(r: Reg) -> (s: String)
    ensures
        s@ == reg_text(r),
{
    match r {
        Reg::Zero => String::from_str("x0"),
        Reg::Temp(n) => {
            let mut s = String::from_str("t");
            append_decimal(&mut s, n as u64);
            s
        },
    }
}

/// Computes `load_line`.
pub fn load_line_string(dst: &str, n: i32) -> (s: String)
    ensures
        s@ == load_line(dst@, n),
{
    let mut s = String::from_str("  li    ");
    s.append(dst);
    s.append(", ");
    append_decimal_i32(&mut s, n);
    s.append("\n");
    s
}

/// Computes `three_line`.
pub fn three_line_string(head: &str, d: Reg, l: Reg, r: Reg) -> (s: String)
    ensures
        s@ == three_line(head@, d, l, r),
{
    let mut s = String::from_str(head);
    s.append(reg_string(d).as_str());
    s.append(", ");
    s.append(reg_string(l).as_str());
    s.append(", ");
    s.append(reg_string(r).as_str());
    s.append("\n");
    s
}

/// Computes `two_line`.
pub fn two_line_string(head: &str, d: Reg, src: Reg) -> (s: String)
    ensures
        s@ == two_line(head@, d, src),
{
    let mut s = String::from_str(head);
    s.append(reg_string(d).as_str());
    s.append(", ");
    s.append(reg_string(src).as_str());
    s.append("\n");
    s
}

/// Computes `select`.
pub fn select_string(op: BinaryOp, d: Reg, l: Reg, r: Reg) -> (s: String)
    ensures
        s@ == select(op, d, l, r),
{
    match op {
        BinaryOp::Sub => three_line_string("  sub   ", d, l, r),
        BinaryOp::Xor => three_line_string("  xor   ", d, l, r),
        BinaryOp::Eq => two_line_string("  seqz  ", d, r),
        BinaryOp::NotEq => two_line_string("  snez  ", d, r),
        BinaryOp::Add => three_line_string("  add   ", d, l, r),
        BinaryOp::Mul => three_line_string("  mul   ", d, l, r),
        BinaryOp::Div => three_line_string("  mul   ", d, l, r),
        BinaryOp::Mod => three_line_string("  mul   ", d, l, r),
        BinaryOp::Lt => three_line_string("  slt   ", d, l, r),
        BinaryOp::Gt => three_line_string("  sgt   ", d, l, r),
        BinaryOp::Le => {
            let mut s = three_line_string("  sgt   ", d, l, r);
            s.append(two_line_string("  seqz  ", d, d).as_str());
            s
        },
        BinaryOp::Ge => {
            let mut s = three_line_string("  slt   ", d, l, r);
            s.append(two_line_string("  seqz  ", d, d).as_str());
            s
        },
        BinaryOp::And => three_line_string("  and   ", d, l, r),
        BinaryOp::Or => three_line_string("  or    ", d, l, r),
    }
}

/// Computes `return_move`.
pub fn return_move_string(r: Reg) -> (s: String)
    ensures
        s@ == return_move(r),
{
    let mut s = String::from_str("  mv    a0, ");
    s.append(reg_string(r).as_str());
    s.append("\n  ret");
    s
}

/// Computes `return_load`.
pub fn return_load_string(n: i32) -> (s: String)
    ensures
        s@ == return_load(n),
{
    let mut s = load_line_string("a0", n);
    s.append("  ret");
    s
}

/// Computes `function_header` for a name that has at least its sigil.
pub fn function_header_string(name: &str) -> (s: String)
    requires
        name@.len() >= 1,
    ensures
        s@ == function_header(name@),
{
    let n = name.unicode_len();
    let label = name.substring_char(1, n);
    let mut s = String::from_str("  .globl ");
    s.append(label);
    s.append("\n");
    s.append(label);
    s.append(":\n");
    s
}

impl EmitCtx {
    /// A context in which no value has a register and the counter is zero.
    pub fn new() -> (r: EmitCtx)
        ensures
            r@ == (EmitState { names: Map::empty(), count: 0 }),
    {
        EmitCtx { names: HashMap::new(), count: 0 }
    }

    /// The register assigned to value `v`, if any.
    pub fn name_of(&self, v: usize) -> (r: Option<Reg>)
        ensures
            r == (if self@.names.contains_key(v) {
                Some(self@.names[v])
            } else {
                None
            }),
    {
        broadcast use vstd::std_specs::hash::group_hash_axioms;

        match self.names.get(&v) {
            Some(reg) => Some(*reg),
            None => None,
        }
    }

    /// Assigns register `reg` to value `v`.
    pub fn assign(&mut self, v: usize, reg: Reg)
        ensures
            final(self)@ == (EmitState {
                names: old(self)@.names.insert(v, reg),
                count: old(self)@.count,
            }),
    {
        broadcast use vstd::std_specs::hash::group_hash_axioms;

        self.names.insert(v, reg);
    }

    /// Takes the next temporary register, or returns `None`, with the
    /// context unchanged, where the counter cannot grow.
    pub fn fresh(&mut self) -> (r: Option<Reg>)
        ensures
            match r {
                Some(reg) => reg == Reg::Temp(old(self).count) && final(self)@ == (EmitState {
                    names: old(self)@.names,
                    count: old(self)@.count + 1,
                }),
                None => old(self).count == u32::MAX && *final(self) == *old(self),
            },
    {
        if self.count == u32::MAX {
            None
        } else {
            let reg = Reg::Temp(self.count);
            self.count = self.count + 1;
            Some(reg)
        }
    }
}

impl IrProgram {
    /// Whether the tables of the program fit together.
    pub open spec fn wf(&self) -> bool {
        &&& values_wf(self.values@)
        &&& forall|f: int|
            0 <= f < self.funcs@.len() ==> #[trigger] function_wf(self.values@, self.funcs@[f])
    }

    /// The outcome of emitting the whole program: the section directive, then
    /// the functions in order, from a state in which no value has a register.
    pub open spec fn emitted(&self) -> Result<Emitted, EmitError> {
        funcs_emitted(
            self.values@,
            self.funcs@,
            0,
            "  .text\n"@,
            EmitState { names: Map::empty(), count: 0 },
        )
    }

    fn value_fits(&self, v: usize) -> (r: bool)
        requires
            v < self.values.len(),
        ensures
            r == value_wf(self.values@, v as int),
    {
        match self.values[v] {
            ValueKind::Integer(_) => true,
            ValueKind::Return(x) => x < self.values.len(),
            ValueKind::Binary(_, l, r) => {
                if l < v && r < v {
                    let left_is_return = match self.values[l] {
                        ValueKind::Return(_) => true,
                        _ => false,
                    };
                    let right_is_return = match self.values[r] {
                        ValueKind::Return(_) => true,
                        _ => false,
                    };
                    !left_is_return && !right_is_return
                } else {
                    false
                }
            },
        }
    }

    fn function_fits(&self, f: usize) -> (r: bool)
        requires
            f < self.funcs.len(),
        ensures
            r == function_wf(self.values@, self.funcs@[f as int]),
    {
        let func = &self.funcs[f];
        if func.name.as_str().unicode_len() < 1 {
            return false;
        }
        let mut i: usize = 0;
        while i < func.insts.len()
            invariant
                i <= func.insts.len(),
                f < self.funcs@.len(),
                *func == self.funcs@[f as int],
                func.name@.len() >= 1,
                forall|j: int| 0 <= j < i ==> #[trigger] func.insts@[j] < self.values@.len(),
            decreases func.insts.len() - i,
        {
            if func.insts[i] >= self.values.len() {
                assert(!(func.insts@[i as int] < self.values@.len()));
                return false;
            }
            i = i + 1;
        }
        true
    }

    /// Decides `wf`.
    pub fn well_formed(&self) -> (r: bool)
        ensures
            r == self.wf(),
    {
        let mut v: usize = 0;
        while v < self.values.len()
            invariant
                v <= self.values.len(),
                forall|k: int| 0 <= k < v ==> #[trigger] value_wf(self.values@, k),
            decreases self.values.len() - v,
        {
            if !self.value_fits(v) {
                return false;
            }
            v = v + 1;
        }
        let mut f: usize = 0;
        while f < self.funcs.len()
            invariant
                f <= self.funcs.len(),
                values_wf(self.values@),
                forall|k: int|
                    0 <= k < f ==> #[trigger] function_wf(self.values@, self.funcs@[k]),
            decreases self.funcs.len() - f,
        {
            if !self.function_fits(f) {
                return false;
            }
            f = f + 1;
        }
        true
    }

    /// Brings value `v`, an integer or a binary operation, into a register
    /// and returns the instructions that do so. Fails where the temporaries
    /// run out.
    pub fn materialize(&self, ctx: &mut EmitCtx, v: usize) -> (r: Result<String, EmitError>)
        requires
            values_wf(self.values@),
            v < self.values.len(),
            !(self.values[v as int] is Return),
        ensures
            ({
                let out = materialized(self.values@, old(ctx)@, v);
                match r {
                    Ok(s) => out.state.count <= u32::MAX && s@ == out.text && final(ctx)@
                        == out.state,
                    Err(e) => e == EmitError::TemporariesExhausted && out.state.count > u32::MAX
                        && continues(old(ctx)@, final(ctx)@),
                }
            }),
        decreases v,
    {
        if ctx.name_of(v).is_some() {
            return Ok(String::new());
        }
        proof {
            assert(value_wf(self.values@, v as int));
        }
        match self.values[v] {
            ValueKind::Integer(n) => {
                if n == 0 {
                    ctx.assign(v, Reg::Zero);
                    Ok(String::new())
                } else {
                    match ctx.fresh() {
                        Some(d) => {
                            ctx.assign(v, d);
                            Ok(load_line_string(reg_string(d).as_str(), n))
                        },
                        None => Err(EmitError::TemporariesExhausted),
                    }
                }
            },
            ValueKind::Return(_) => Ok(String::new()),
            ValueKind::Binary(op, l, r) => {
                proof {
                    lemma_materialized_extends(self.values@, old(ctx)@, l);
                    lemma_materialized_extends(
                        self.values@,
                        materialized(self.values@, old(ctx)@, l).state,
                        r,
                    );
                }
                let mut text = match self.materialize(ctx, l) {
                    Ok(a) => a,
                    Err(e) => {
                        return Err(e);
                    },
                };
                let b = match self.materialize(ctx, r) {
                    Ok(b) => b,
                    Err(e) => {
                        proof {
                            let mid = materialized(self.values@, old(ctx)@, l).state;
                            assert forall|k: usize| #[trigger]
                                old(ctx)@.names.contains_key(k) implies ctx@.names.contains_key(k)
                                && ctx@.names[k] == old(ctx)@.names[k] by {
                                assert(mid.names.contains_key(k));
                            }
                        }
                        return Err(e);
                    },
                };
                let lreg = match ctx.name_of(l) {
                    Some(reg) => reg,
                    None => Reg::Zero,
                };
                let rreg = match ctx.name_of(r) {
                    Some(reg) => reg,
                    None => Reg::Zero,
                };
                let d = match ctx.fresh() {
                    Some(d) => d,
                    None => {
                        proof {
                            let mid = materialized(self.values@, old(ctx)@, l).state;
                            assert forall|k: usize| #[trigger]
                                old(ctx)@.names.contains_key(k) implies ctx@.names.contains_key(k)
                                && ctx@.names[k] == old(ctx)@.names[k] by {
                                assert(mid.names.contains_key(k));
                            }
                        }
                        return Err(EmitError::TemporariesExhausted);
                    },
                };
                ctx.assign(v, d);
                text.append(b.as_str());
                text.append(select_string(op, d, lreg, rreg).as_str());
                Ok(text)
            },
        }
    }

    /// Emits value `v`: nothing where it has a register, a return sequence
    /// for a return, and otherwise the instructions that bring it into a
    /// register.
    pub fn generate_value(&self, ctx: &mut EmitCtx, v: usize) -> (r: Result<String, EmitError>)
        requires
            values_wf(self.values@),
            v < self.values.len(),
        ensures
            emission_agrees(r, old(ctx)@, final(ctx)@, value_emitted(self.values@, old(ctx)@, v)),
    {
        if ctx.name_of(v).is_some() {
            return Ok(String::new());
        }
        proof {
            assert(value_wf(self.values@, v as int));
        }
        match self.values[v] {
            ValueKind::Return(x) => match ctx.name_of(x) {
                Some(reg) => Ok(return_move_string(reg)),
                None => match self.values[x] {
                    ValueKind::Integer(n) => Ok(return_load_string(n)),
                    _ => Err(EmitError::UnresolvedReturn),
                },
            },
            _ => self.materialize(ctx, v),
        }
    }

    /// Emits function `f`: its header, then its instructions in order.
    pub fn generate_function(&self, ctx: &mut EmitCtx, f: usize) -> (r: Result<String, EmitError>)
        requires
            self.wf(),
            f < self.funcs.len(),
        ensures
            emission_agrees(
                r,
                old(ctx)@,
                final(ctx)@,
                function_emitted(self.values@, self.funcs@[f as int], old(ctx)@),
            ),
    {
        let func = &self.funcs[f];
        proof {
            assert(function_wf(self.values@, self.funcs@[f as int]));
        }
        let mut ans = function_header_string(func.name.as_str());
        let mut i: usize = 0;
        while i < func.insts.len()
            invariant
                i <= func.insts.len(),
                f < self.funcs@.len(),
                *func == self.funcs@[f as int],
                values_wf(self.values@),
                function_wf(self.values@, *func),
                continues(old(ctx)@, ctx@),
                function_emitted(self.values@, *func, old(ctx)@) == insts_emitted(
                    self.values@,
                    func.insts@,
                    i as int,
                    ans@,
                    ctx@,
                ),
            decreases func.insts.len() - i,
        {
            assert(func.insts@[i as int] < self.values@.len());
            proof {
                if value_emitted(self.values@, ctx@, func.insts@[i as int]) is Ok {
                    lemma_emission_extends(self.values@, ctx@, func.insts@[i as int]);
                }
            }
            match self.generate_value(ctx, func.insts[i]) {
                Ok(text) => {
                    ans.append(text.as_str());
                },
                Err(e) => {
                    return Err(e);
                },
            }
            i = i + 1;
        }
        Ok(ans)
    }

    /// Emits a well-formed program from a fresh context.
    pub fn generate(&self) -> (r: Result<String, EmitError>)
        requires
            self.wf(),
        ensures
            match self.emitted() {
                Ok(e) => r is Ok && r->Ok_0@ == e.text,
                Err(e) => r is Err && r->Err_0 == e,
            },
    {
        let mut ctx = EmitCtx::new();
        let mut ans = String::from_str("  .text\n");
        let mut f: usize = 0;
        while f < self.funcs.len()
            invariant
                f <= self.funcs.len(),
                self.wf(),
                self.emitted() == funcs_emitted(self.values@, self.funcs@, f as int, ans@, ctx@),
            decreases self.funcs.len() - f,
        {
            match self.generate_function(&mut ctx, f) {
                Ok(text) => {
                    ans.append(text.as_str());
                },
                Err(e) => {
                    return Err(e);
                },
            }
            f = f + 1;
        }
        Ok(ans)
    }

    /// Emits a program: fails with `Malformed` where its tables do not fit
    /// together, and otherwise does what `generate` does.
    pub fn emit(&self) -> (r: Result<String, EmitError>)
        ensures
            !self.wf() ==> r is Err && r->Err_0 == EmitError::Malformed,
            self.wf() ==> match self.emitted() {
                Ok(e) => r is Ok && r->Ok_0@ == e.text,
                Err(e) => r is Err && r->Err_0 == e,
            },
    {
        if self.well_formed() {
            self.generate()
        } else {
            Err(EmitError::Malformed)
        }
    }
}

/// Whether the temporaries of a state were handed out in order: each one
/// that is assigned lies below the counter, and none is assigned to two
/// values.
pub open spec fn names_fresh(st: EmitState) -> bool {
    &&& forall|k: usize| #[trigger]
        st.names.contains_key(k) ==> (st.names[k] matches Reg::Temp(n) ==> n < st.count)
    &&& forall|j: usize, k: usize|
        #![trigger st.names.contains_key(j), st.names.contains_key(k)]
        st.names.contains_key(j) && st.names.contains_key(k) && j != k && st.names[j] is Temp
            ==> st.names[j] != st.names[k]
}

/// Bringing a value into a register hands out temporaries in order: where
/// they do not run out, none is used twice.
pub proof fn lemma_materialized_keeps_fresh(values: Seq<ValueKind>, st: EmitState, v: usize)
    requires
        values_wf(values),
        v < values.len(),
        names_fresh(st),
        materialized(values, st, v).state.count <= u32::MAX,
    ensures
        names_fresh(materialized(values, st, v).state),
    decreases v,
{
    assert(value_wf(values, v as int));
    if !st.names.contains_key(v) {
        match values[v as int] {
            ValueKind::Binary(op, l, r) => {
                let a = materialized(values, st, l);
                let b = materialized(values, a.state, r);
                lemma_materialized_extends(values, st, l);
                lemma_materialized_extends(values, a.state, r);
                lemma_materialized_keeps_fresh(values, st, l);
                lemma_materialized_keeps_fresh(values, a.state, r);
                assert(names_fresh(b.state));
            },
            _ => {},
        }
    }
}

/// Whether value `k` got its register between the two states.
pub open spec fn newly_named(before: EmitState, after: EmitState, k: usize) -> bool {
    after.names.contains_key(k) && !before.names.contains_key(k)
}

/// Whether some value got temporary `t` between the two states.
pub open spec fn temp_handed_out(before: EmitState, after: EmitState, t: nat) -> bool {
    exists|k: usize| #[trigger]
        newly_named(before, after, k) && after.names[k] == Reg::Temp(t as u32)
}

/// Whether the counter's growth between the two states is the number of
/// temporaries handed out: every value that got a register got the zero
/// register or a temporary numbered from the old counter up to the new one,
/// no two of them the same temporary, and each of those numbers went to one
/// of them.
pub open spec fn temps_accounted(before: EmitState, after: EmitState) -> bool {
    &&& forall|k: usize| #[trigger]
        newly_named(before, after, k) ==> (after.names[k] matches Reg::Temp(t) ==> before.count
            <= t < after.count)
    &&& forall|j: usize, k: usize|
        #![trigger newly_named(before, after, j), newly_named(before, after, k)]
        newly_named(before, after, j) && newly_named(before, after, k) && j != k
            && after.names[j] is Temp ==> after.names[j] != after.names[k]
    &&& forall|t: nat|
        before.count <= t < after.count ==> #[trigger] temp_handed_out(before, after, t)
}

/// Bringing a value into a register moves the counter by the number of
/// temporaries it hands out.
pub proof fn lemma_materialized_accounts(values: Seq<ValueKind>, st: EmitState, v: usize)
    requires
        values_wf(values),
        v < values.len(),
        materialized(values, st, v).state.count <= u32::MAX,
    ensures
        temps_accounted(st, materialized(values, st, v).state),
    decreases v,
{
    assert(value_wf(values, v as int));
    let out = materialized(values, st, v).state;
    if st.names.contains_key(v) {
    } else {
        match values[v as int] {
            ValueKind::Integer(n) => {
                if n != 0 {
                    assert(newly_named(st, out, v));
                    assert(temp_handed_out(st, out, st.count));
                }
            },
            ValueKind::Return(_) => {},
            ValueKind::Binary(op, l, r) => {
                let a = materialized(values, st, l).state;
                let b = materialized(values, a, r).state;
                lemma_materialized_extends(values, st, l);
                lemma_materialized_extends(values, a, r);
                lemma_materialized_accounts(values, st, l);
                lemma_materialized_accounts(values, a, r);
                assert(!a.names.contains_key(v));
                assert(!b.names.contains_key(v));
                assert forall|k: usize| #[trigger] newly_named(st, out, k) implies (
                out.names[k] matches Reg::Temp(t) ==> st.count <= t < out.count) by {
                    if k != v {
                        assert(b.names.contains_key(k));
                        if a.names.contains_key(k) {
                            assert(newly_named(st, a, k));
                        } else {
                            assert(newly_named(a, b, k));
                        }
                    }
                }
                assert forall|j: usize, k: usize|
                    #![trigger newly_named(st, out, j), newly_named(st, out, k)]
                    newly_named(st, out, j) && newly_named(st, out, k) && j != k
                        && out.names[j] is Temp implies out.names[j] != out.names[k] by {
                    if j != v {
                        assert(b.names.contains_key(j));
                        if a.names.contains_key(j) {
                            assert(newly_named(st, a, j));
                        } else {
                            assert(newly_named(a, b, j));
                        }
                    }
                    if k != v {
                        assert(b.names.contains_key(k));
                        if a.names.contains_key(k) {
                            assert(newly_named(st, a, k));
                        } else {
                            assert(newly_named(a, b, k));
                        }
                    }
                }
                assert forall|t: nat| st.count <= t < out.count implies #[trigger] temp_handed_out(
                    st,
                    out,
                    t,
                ) by {
                    if t == b.count {
                        assert(newly_named(st, out, v));
                    } else if t >= a.count {
                        assert(temp_handed_out(a, b, t));
                        let k = choose|k: usize| #[trigger]
                            newly_named(a, b, k) && b.names[k] == Reg::Temp(t as u32);
                        assert(newly_named(st, out, k));
                    } else {
                        assert(temp_handed_out(st, a, t));
                        let k = choose|k: usize| #[trigger]
                            newly_named(st, a, k) && a.names[k] == Reg::Temp(t as u32);
                        assert(b.names.contains_key(k));
                        assert(newly_named(st, out, k));
                    }
                }
            },
        }
    }
}

/// Emitting a value never lowers the counter, keeps every register that was
/// assigned, never uses a temporary twice, and moves the counter by the
/// number of temporaries it hands out.
pub proof fn lemma_emission_extends(values: Seq<ValueKind>, st: EmitState, v: usize)
    requires
        values_wf(values),
        v < values.len(),
        value_emitted(values, st, v) is Ok,
    ensures
        ({
            let after = value_emitted(values, st, v)->Ok_0.state;
            &&& after.count >= st.count
            &&& forall|k: usize| #[trigger]
                st.names.contains_key(k) ==> after.names.contains_key(k) && after.names[k]
                    == st.names[k]
            &&& names_fresh(st) ==> names_fresh(after)
            &&& temps_accounted(st, after)
        }),
{
    lemma_materialized_extends(values, st, v);
    if names_fresh(st) && !st.names.contains_key(v) && !(values[v as int] is Return) {
        lemma_materialized_keeps_fresh(values, st, v);
    }
    if !st.names.contains_key(v) && !(values[v as int] is Return) {
        lemma_materialized_accounts(values, st, v);
    }
}

/// What stands at the front of the text stays there while instructions are
/// emitted behind it.
pub proof fn lemma_insts_keep_prefix(
    values: Seq<ValueKind>,
    insts: Seq<usize>,
    i: int,
    acc: Seq<char>,
    st: EmitState,
    front: Seq<char>,
)
    requires
        front.is_prefix_of(acc),
        insts_emitted(values, insts, i, acc, st) is Ok,
    ensures
        front.is_prefix_of(insts_emitted(values, insts, i, acc, st)->Ok_0.text),
    decreases insts.len() - i,
{
    if 0 <= i < insts.len() {
        let e = value_emitted(values, st, insts[i])->Ok_0;
        lemma_insts_keep_prefix(values, insts, i + 1, acc + e.text, e.state, front);
    }
}

/// What stands at the front of the text stays there while functions are
/// emitted behind it.
pub proof fn lemma_funcs_keep_prefix(
    values: Seq<ValueKind>,
    funcs: Seq<IrFunction>,
    i: int,
    acc: Seq<char>,
    st: EmitState,
    front: Seq<char>,
)
    requires
        front.is_prefix_of(acc),
        funcs_emitted(values, funcs, i, acc, st) is Ok,
    ensures
        front.is_prefix_of(funcs_emitted(values, funcs, i, acc, st)->Ok_0.text),
    decreases funcs.len() - i,
{
    if 0 <= i < funcs.len() {
        let e = function_emitted(values, funcs[i], st)->Ok_0;
        lemma_funcs_keep_prefix(values, funcs, i + 1, acc + e.text, e.state, front);
    }
}

/// The text of a program begins with the section directive.
pub proof fn lemma_program_begins_with_directive(program: IrProgram)
    requires
        program.emitted() is Ok,
    ensures
        "  .text\n"@.is_prefix_of(program.emitted()->Ok_0.text),
{
    lemma_funcs_keep_prefix(
        program.values@,
        program.funcs@,
        0,
        "  .text\n"@,
        EmitState { names: Map::empty(), count: 0 },
        "  .text\n"@,
    );
}

/// The text of a function begins with its export directive and its label.
pub proof fn lemma_function_begins_with_header(
    values: Seq<ValueKind>,
    f: IrFunction,
    st: EmitState,
)
    requires
        function_emitted(values, f, st) is Ok,
    ensures
        function_header(f.name@).is_prefix_of(function_emitted(values, f, st)->Ok_0.text),
{
    lemma_insts_keep_prefix(values, f.insts@, 0, function_header(f.name@), st, function_header(f.name@));
}

/// Emitting a value that has a register gives no text and changes nothing.
pub proof fn lemma_named_value_emits_nothing(values: Seq<ValueKind>, st: EmitState, v: usize)
    requires
        st.names.contains_key(v),
    ensures
        value_emitted(values, st, v) == Ok::<Emitted, EmitError>(
            Emitted { text: Seq::empty(), state: st },
        ),
{
}

/// Emitting an integer or a binary operation a second time gives no text and
/// changes nothing: the first emission left it with a register.
pub proof fn lemma_emission_is_idempotent(values: Seq<ValueKind>, st: EmitState, v: usize)
    requires
        values_wf(values),
        v < values.len(),
        !(values[v as int] is Return),
        value_emitted(values, st, v) is Ok,
    ensures
        ({
            let once = value_emitted(values, st, v)->Ok_0;
            &&& once.state.names.contains_key(v)
            &&& value_emitted(values, once.state, v) == Ok::<Emitted, EmitError>(
                Emitted { text: Seq::empty(), state: once.state },
            )
        }),
{
    lemma_materialized_extends(values, st, v);
}

/// `Le` selects exactly two instructions: `sgt` on the operands, then `seqz`
/// of the result onto itself. `Ge` does the same with `slt`.
pub proof fn lemma_weak_comparisons_take_two(d: Reg, l: Reg, r: Reg)
    ensures
        select(BinaryOp::Le, d, l, r) == three_line("  sgt   "@, d, l, r) + two_line(
            "  seqz  "@,
            d,
            d,
        ),
        select(BinaryOp::Ge, d, l, r) == three_line("  slt   "@, d, l, r) + two_line(
            "  seqz  "@,
            d,
            d,
        ),
{
}

} // verus!
