//! The input language: a typed intermediate representation made of functions,
//! each a list of extended basic blocks (EBBs) whose operations carry
//! source-level types.

use vstd::prelude::*;

verus! {

/// An opaque name, identity-compared by its integer id. The front end interns
/// every source-level name to a distinct id, so two symbols are the same name
/// exactly when their ids are equal.
#[derive(Clone, Copy, PartialEq, Eq, Structural, Hash, Debug)]
pub struct Symbol(pub u64);

/// A literal constant. A float literal carries the raw bit pattern of its
/// 64-bit IEEE encoding; this stage never computes with the value, it only
/// materializes the bits into a register.
#[derive(Clone, Copy, PartialEq, Eq, Structural, Debug)]
pub enum Literal {
    Bool(bool),
    Int(i64),
    Float(u64),
}

/// A source-level value type.
#[derive(Debug)]
pub enum EbbTy {
    Unit,
    Int,
    Float,
    Bool,
    Tuple(Vec<EbbTy>),
    Cls { param: Box<EbbTy>, ret: Box<EbbTy> },
    Ebb { param: Box<EbbTy>, ret: Box<EbbTy> },
}

/// One operation of an extended basic block. Value construction and invocation
/// operations bind their result to `var`; control transfers bind nothing.
#[derive(Debug)]
pub enum Op {
    Lit { var: Symbol, ty: EbbTy, value: Literal },
    Alias { var: Symbol, ty: EbbTy, sym: Symbol },
    Add { var: Symbol, ty: EbbTy, l: Symbol, r: Symbol },
    Sub { var: Symbol, ty: EbbTy, l: Symbol, r: Symbol },
    Mul { var: Symbol, ty: EbbTy, l: Symbol, r: Symbol },
    DivInt { var: Symbol, ty: EbbTy, l: Symbol, r: Symbol },
    DivFloat { var: Symbol, ty: EbbTy, l: Symbol, r: Symbol },
    Mod { var: Symbol, ty: EbbTy, l: Symbol, r: Symbol },
    Eq { var: Symbol, ty: EbbTy, l: Symbol, r: Symbol },
    Neq { var: Symbol, ty: EbbTy, l: Symbol, r: Symbol },
    Gt { var: Symbol, ty: EbbTy, l: Symbol, r: Symbol },
    Ge { var: Symbol, ty: EbbTy, l: Symbol, r: Symbol },
    Lt { var: Symbol, ty: EbbTy, l: Symbol, r: Symbol },
    Le { var: Symbol, ty: EbbTy, l: Symbol, r: Symbol },
    Tuple { var: Symbol, tys: Vec<EbbTy>, tuple: Vec<Symbol> },
    Proj { var: Symbol, ty: EbbTy, index: u32, tuple: Symbol },
    Closure { var: Symbol, fun: Symbol, env: Vec<(EbbTy, Symbol)> },
    BuiltinCall { var: Symbol, ty: EbbTy, fun: Symbol, args: Vec<Symbol> },
    Call { var: Symbol, ty: EbbTy, fun: Symbol, args: Vec<Symbol> },
    Branch {
        cond: Symbol,
        clauses: Vec<(u32, Symbol, Vec<Symbol>)>,
        default: Option<(Symbol, Vec<Symbol>)>,
    },
    Jump { target: Symbol, args: Vec<Symbol> },
    Ret { value: Option<Symbol> },
}

/// An extended basic block: a label, an ordered typed parameter list, and an
/// ordered operation list whose last operation is the block's one control
/// transfer.
#[derive(Debug)]
pub struct EBB {
    pub name: Symbol,
    pub params: Vec<(EbbTy, Symbol)>,
    pub body: Vec<Op>,
}

/// A function: its name, its blocks (the first is the entry block), and its
/// declared overall return type.
#[derive(Debug)]
pub struct Function {
    pub name: Symbol,
    pub body: Vec<EBB>,
    pub body_ty: EbbTy,
}

/// A whole program: an ordered list of functions.
#[derive(Debug)]
pub struct MIR(pub Vec<Function>);

} // verus!
