//! The syntax tree of the source language.

use vstd::prelude::*;

verus! {

/// A whole compilation unit: a single function definition.
#[derive(Debug)]
pub struct CompUnit {
    pub func_def: FuncDef,
}

/// A declaration inside a block.
#[derive(Debug)]
pub enum Decl {
    CDecl(ConstDecl),
    VDecl(VarDecl),
}

/// One `const` declaration, which may bind several names.
#[derive(Debug)]
pub struct ConstDecl {
    pub constdefs: Vec<ConstDef>,
}

/// The base type of a declaration.
#[derive(Debug)]
pub enum BType {
    Int,
}

/// One name bound by a `const` declaration, with its initializer.
#[derive(Debug)]
pub struct ConstDef {
    pub ident: String,
    pub constinitval: ConstInitVal,
}

/// The initializer of a constant.
#[derive(Debug)]
pub struct ConstInitVal {
    pub constexp: ConstExp,
}

/// One variable declaration, which may bind several names.
#[derive(Debug)]
pub struct VarDecl {
    pub vardefs: Vec<VarDef>,
}

/// One variable with its optional initializer.
#[derive(Debug)]
pub struct VarDef {
    pub ident: String,
    pub initval: Option<InitVal>,
}

/// The initializer of a variable.
#[derive(Debug)]
pub struct InitVal {
    pub exp: Exp,
}

/// A function without parameters.
#[derive(Debug)]
pub struct FuncDef {
    pub func_type: FuncType,
    pub ident: String,
    pub block: Block,
}

/// The return type of a function.
#[derive(Debug)]
pub enum FuncType {
    Int,
}

/// A brace-delimited list of declarations and statements.
#[derive(Debug)]
pub struct Block {
    pub items: Vec<BlockItem>,
}

/// One entry of a block.
#[derive(Debug)]
pub enum BlockItem {
    Decl(Decl),
    Stmt(Stmt),
}

/// A statement.
#[derive(Debug)]
pub enum Stmt {
    Assign(LVal, Exp),
    Return(Exp),
}

/// An expression; the root of the layered grammar.
#[derive(Debug)]
pub struct Exp {
    pub lorexp: Box<LOrExp>,
}

/// A reference to a named constant or variable.
#[derive(Debug)]
pub struct LVal {
    pub ident: String,
}

/// The innermost layer: parentheses, literals and names.
#[derive(Debug)]
pub enum PrimaryExp {
    Exp(Exp),
    Number(i32),
    LVal(LVal),
}

/// A primary expression under any number of prefix operators.
#[derive(Debug)]
pub enum UnaryExp {
    PExp(PrimaryExp),
    UExp(UnaryOp, Box<UnaryExp>),
}

/// A prefix operator.
#[derive(Debug)]
pub enum UnaryOp {
    Pos,
    Neg,
    Not,
    Inv,
}

/// A left-associated chain of multiplicative operators.
#[derive(Debug)]
pub enum MulExp {
    UExp(UnaryExp),
    MExp(Box<MulExp>, MulOp, UnaryExp),
}

/// A multiplicative operator.
#[derive(Debug)]
pub enum MulOp {
    Mul,
    Div,
    Mod,
}

/// A left-associated chain of additive operators.
#[derive(Debug)]
pub enum AddExp {
    MExp(MulExp),
    AExp(Box<AddExp>, AddOp, MulExp),
}

/// An additive operator.
#[derive(Debug)]
pub enum AddOp {
    Add,
    Sub,
}

/// A left-associated chain of relational operators.
#[derive(Debug)]
pub enum RelExp {
    AExp(AddExp),
    RExp(Box<RelExp>, RelOp, AddExp),
}

/// A relational operator.
#[derive(Debug)]
pub enum RelOp {
    Lt,
    Gt,
    Le,
    Ge,
}

/// A left-associated chain of equality operators.
#[derive(Debug)]
pub enum EqExp {
    RExp(RelExp),
    EExp(Box<EqExp>, EqOp, RelExp),
}

/// An equality operator.
#[derive(Debug)]
pub enum EqOp {
    Equ,
    Ne,
}

/// A left-associated chain of logical conjunctions.
#[derive(Debug)]
pub enum LAndExp {
    EExp(EqExp),
    LAExp(Box<LAndExp>, EqExp),
}

/// A left-associated chain of logical disjunctions.
#[derive(Debug)]
pub enum LOrExp {
    LAExp(LAndExp),
    LOExp(Box<LOrExp>, LAndExp),
}

/// An expression that must fold to a literal.
#[derive(Debug)]
pub struct ConstExp {
    pub exp: Exp,
}

} // verus!
