//! The output language: functions over an unbounded set of typed virtual
//! registers, whose operations are concrete, type-specialized instructions.
//!
//! Every executable type here has a ghost mirror (`OpS`, `BlockS`, `FunctionS`)
//! in which ordered collections are `Seq`s, reached through `View`; the
//! specification of the translation is stated over the mirrors.

use vstd::prelude::*;
use crate::mir::Symbol;

verus! {

/// A machine-oriented value type.
#[derive(Clone, Copy, PartialEq, Eq, Structural, Hash, Debug)]
pub enum LTy {
    Unit,
    I32,
    I64,
    F32,
    F64,
    Ptr,
    FPtr,
}

/// The logical byte size of a machine type, used only for heap layout.
pub open spec fn lty_size(t: LTy) -> u32 {
    match t {
        LTy::Unit => 0,
        LTy::I32 => 4,
        LTy::I64 => 8,
        LTy::F32 => 4,
        LTy::F64 => 8,
        LTy::Ptr => 8,
        LTy::FPtr => 8,
    }
}

impl LTy {
    /// The logical byte size of this machine type.
    pub fn size(&self) -> (r: u32)
        ensures
            r == lty_size(*self),
    {
        match self {
            LTy::Unit => 0,
            LTy::I32 => 4,
            LTy::I64 => 8,
            LTy::F32 => 4,
            LTy::F64 => 8,
            LTy::Ptr => 8,
            LTy::FPtr => 8,
        }
    }
}

/// A virtual register: a machine type and a unique id, allocated once and
/// never reused within a function. The id is the register's index in the
/// function's register declaration list.
#[derive(Clone, Copy, PartialEq, Eq, Structural, Debug)]
pub struct Reg {
    pub ty: LTy,
    pub id: usize,
}

/// A block label.
#[derive(Clone, Copy, PartialEq, Eq, Structural, Debug)]
pub struct Label(pub Symbol);

/// A heap address: a base register plus a byte offset.
#[derive(Clone, Copy, PartialEq, Eq, Structural, Debug)]
pub struct Addr {
    pub base: Reg,
    pub offset: u32,
}

/// A concrete instruction. The first register operand of a value-producing
/// instruction is its destination. A float constant carries the raw bits of
/// its 64-bit IEEE encoding.
#[derive(PartialEq, Eq, Debug)]
pub enum Op {
    ConstI32(Reg, u32),
    ConstF64(Reg, u64),
    MoveI32(Reg, Reg),
    MoveI64(Reg, Reg),
    MoveF32(Reg, Reg),
    MoveF64(Reg, Reg),
    AddI32(Reg, Reg, Reg),
    AddF64(Reg, Reg, Reg),
    SubI32(Reg, Reg, Reg),
    SubF64(Reg, Reg, Reg),
    MulI32(Reg, Reg, Reg),
    MulF64(Reg, Reg, Reg),
    DivI32(Reg, Reg, Reg),
    DivF64(Reg, Reg, Reg),
    ModI32(Reg, Reg, Reg),
    EqI32(Reg, Reg, Reg),
    EqI64(Reg, Reg, Reg),
    EqF32(Reg, Reg, Reg),
    EqF64(Reg, Reg, Reg),
    NeqI32(Reg, Reg, Reg),
    NeqI64(Reg, Reg, Reg),
    NeqF32(Reg, Reg, Reg),
    NeqF64(Reg, Reg, Reg),
    GtI32(Reg, Reg, Reg),
    GtI64(Reg, Reg, Reg),
    GtF32(Reg, Reg, Reg),
    GtF64(Reg, Reg, Reg),
    GeI32(Reg, Reg, Reg),
    GeI64(Reg, Reg, Reg),
    GeF32(Reg, Reg, Reg),
    GeF64(Reg, Reg, Reg),
    LtI32(Reg, Reg, Reg),
    LtI64(Reg, Reg, Reg),
    LtF32(Reg, Reg, Reg),
    LtF64(Reg, Reg, Reg),
    LeI32(Reg, Reg, Reg),
    LeI64(Reg, Reg, Reg),
    LeF32(Reg, Reg, Reg),
    LeF64(Reg, Reg, Reg),
    HeapAlloc(Reg, u32, Vec<LTy>),
    StoreI32(Addr, Reg),
    StoreI64(Addr, Reg),
    StoreF32(Addr, Reg),
    StoreF64(Addr, Reg),
    StoreFnPtr(Addr, Symbol),
    LoadI32(Reg, Addr),
    LoadI64(Reg, Addr),
    LoadF32(Reg, Addr),
    LoadF64(Reg, Addr),
    BuiltinCall(Reg, Symbol, Vec<Reg>),
    ClosureCall(Reg, Reg, Vec<Reg>),
    FunCall(Reg, Symbol, Vec<Reg>),
    JumpTableI32(Reg, Vec<Label>, Option<Label>),
    JumpIfI32(Reg, Label),
    Jump(Label),
    Ret(Option<Reg>),
}

/// The ghost mirror of `Op`: the same instruction with `Seq` for `Vec`.
pub ghost enum OpS {
    ConstI32(Reg, u32),
    ConstF64(Reg, u64),
    MoveI32(Reg, Reg),
    MoveI64(Reg, Reg),
    MoveF32(Reg, Reg),
    MoveF64(Reg, Reg),
    AddI32(Reg, Reg, Reg),
    AddF64(Reg, Reg, Reg),
    SubI32(Reg, Reg, Reg),
    SubF64(Reg, Reg, Reg),
    MulI32(Reg, Reg, Reg),
    MulF64(Reg, Reg, Reg),
    DivI32(Reg, Reg, Reg),
    DivF64(Reg, Reg, Reg),
    ModI32(Reg, Reg, Reg),
    EqI32(Reg, Reg, Reg),
    EqI64(Reg, Reg, Reg),
    EqF32(Reg, Reg, Reg),
    EqF64(Reg, Reg, Reg),
    NeqI32(Reg, Reg, Reg),
    NeqI64(Reg, Reg, Reg),
    NeqF32(Reg, Reg, Reg),
    NeqF64(Reg, Reg, Reg),
    GtI32(Reg, Reg, Reg),
    GtI64(Reg, Reg, Reg),
    GtF32(Reg, Reg, Reg),
    GtF64(Reg, Reg, Reg),
    GeI32(Reg, Reg, Reg),
    GeI64(Reg, Reg, Reg),
    GeF32(Reg, Reg, Reg),
    GeF64(Reg, Reg, Reg),
    LtI32(Reg, Reg, Reg),
    LtI64(Reg, Reg, Reg),
    LtF32(Reg, Reg, Reg),
    LtF64(Reg, Reg, Reg),
    LeI32(Reg, Reg, Reg),
    LeI64(Reg, Reg, Reg),
    LeF32(Reg, Reg, Reg),
    LeF64(Reg, Reg, Reg),
    HeapAlloc(Reg, u32, Seq<LTy>),
    StoreI32(Addr, Reg),
    StoreI64(Addr, Reg),
    StoreF32(Addr, Reg),
    StoreF64(Addr, Reg),
    StoreFnPtr(Addr, Symbol),
    LoadI32(Reg, Addr),
    LoadI64(Reg, Addr),
    LoadF32(Reg, Addr),
    LoadF64(Reg, Addr),
    BuiltinCall(Reg, Symbol, Seq<Reg>),
    ClosureCall(Reg, Reg, Seq<Reg>),
    FunCall(Reg, Symbol, Seq<Reg>),
    JumpTableI32(Reg, Seq<Label>, Option<Label>),
    JumpIfI32(Reg, Label),
    Jump(Label),
    Ret(Option<Reg>),
}

impl View for Op {
    type V = OpS;

    open spec fn view(&self) -> OpS {
        match self {
            Op::ConstI32(a, b) => OpS::ConstI32(*a, *b),
            Op::ConstF64(a, b) => OpS::ConstF64(*a, *b),
            Op::MoveI32(a, b) => OpS::MoveI32(*a, *b),
            Op::MoveI64(a, b) => OpS::MoveI64(*a, *b),
            Op::MoveF32(a, b) => OpS::MoveF32(*a, *b),
            Op::MoveF64(a, b) => OpS::MoveF64(*a, *b),
            Op::AddI32(a, b, c) => OpS::AddI32(*a, *b, *c),
            Op::AddF64(a, b, c) => OpS::AddF64(*a, *b, *c),
            Op::SubI32(a, b, c) => OpS::SubI32(*a, *b, *c),
            Op::SubF64(a, b, c) => OpS::SubF64(*a, *b, *c),
            Op::MulI32(a, b, c) => OpS::MulI32(*a, *b, *c),
            Op::MulF64(a, b, c) => OpS::MulF64(*a, *b, *c),
            Op::DivI32(a, b, c) => OpS::DivI32(*a, *b, *c),
            Op::DivF64(a, b, c) => OpS::DivF64(*a, *b, *c),
            Op::ModI32(a, b, c) => OpS::ModI32(*a, *b, *c),
            Op::EqI32(a, b, c) => OpS::EqI32(*a, *b, *c),
            Op::EqI64(a, b, c) => OpS::EqI64(*a, *b, *c),
            Op::EqF32(a, b, c) => OpS::EqF32(*a, *b, *c),
            Op::EqF64(a, b, c) => OpS::EqF64(*a, *b, *c),
            Op::NeqI32(a, b, c) => OpS::NeqI32(*a, *b, *c),
            Op::NeqI64(a, b, c) => OpS::NeqI64(*a, *b, *c),
            Op::NeqF32(a, b, c) => OpS::NeqF32(*a, *b, *c),
            Op::NeqF64(a, b, c) => OpS::NeqF64(*a, *b, *c),
            Op::GtI32(a, b, c) => OpS::GtI32(*a, *b, *c),
            Op::GtI64(a, b, c) => OpS::GtI64(*a, *b, *c),
            Op::GtF32(a, b, c) => OpS::GtF32(*a, *b, *c),
            Op::GtF64(a, b, c) => OpS::GtF64(*a, *b, *c),
            Op::GeI32(a, b, c) => OpS::GeI32(*a, *b, *c),
            Op::GeI64(a, b, c) => OpS::GeI64(*a, *b, *c),
            Op::GeF32(a, b, c) => OpS::GeF32(*a, *b, *c),
            Op::GeF64(a, b, c) => OpS::GeF64(*a, *b, *c),
            Op::LtI32(a, b, c) => OpS::LtI32(*a, *b, *c),
            Op::LtI64(a, b, c) => OpS::LtI64(*a, *b, *c),
            Op::LtF32(a, b, c) => OpS::LtF32(*a, *b, *c),
            Op::LtF64(a, b, c) => OpS::LtF64(*a, *b, *c),
            Op::LeI32(a, b, c) => OpS::LeI32(*a, *b, *c),
            Op::LeI64(a, b, c) => OpS::LeI64(*a, *b, *c),
            Op::LeF32(a, b, c) => OpS::LeF32(*a, *b, *c),
            Op::LeF64(a, b, c) => OpS::LeF64(*a, *b, *c),
            Op::HeapAlloc(a, b, c) => OpS::HeapAlloc(*a, *b, c@),
            Op::StoreI32(a, b) => OpS::StoreI32(*a, *b),
            Op::StoreI64(a, b) => OpS::StoreI64(*a, *b),
            Op::StoreF32(a, b) => OpS::StoreF32(*a, *b),
            Op::StoreF64(a, b) => OpS::StoreF64(*a, *b),
            Op::StoreFnPtr(a, b) => OpS::StoreFnPtr(*a, *b),
            Op::LoadI32(a, b) => OpS::LoadI32(*a, *b),
            Op::LoadI64(a, b) => OpS::LoadI64(*a, *b),
            Op::LoadF32(a, b) => OpS::LoadF32(*a, *b),
            Op::LoadF64(a, b) => OpS::LoadF64(*a, *b),
            Op::BuiltinCall(a, b, c) => OpS::BuiltinCall(*a, *b, c@),
            Op::ClosureCall(a, b, c) => OpS::ClosureCall(*a, *b, c@),
            Op::FunCall(a, b, c) => OpS::FunCall(*a, *b, c@),
            Op::JumpTableI32(a, b, c) => OpS::JumpTableI32(*a, b@, *c),
            Op::JumpIfI32(a, b) => OpS::JumpIfI32(*a, *b),
            Op::Jump(a) => OpS::Jump(*a),
            Op::Ret(a) => OpS::Ret(*a),
        }
    }
}

/// A block of the output: a label and its ordered instructions.
#[derive(PartialEq, Eq, Debug)]
pub struct Block {
    pub name: Label,
    pub body: Vec<Op>,
}

/// The ghost mirror of `Block`.
pub ghost struct BlockS {
    pub name: Label,
    pub body: Seq<OpS>,
}

/// The mirror of a sequence of instructions.
pub open spec fn ops_view(s: Seq<Op>) -> Seq<OpS> {
    s.map_values(|o: Op| o@)
}

impl View for Block {
    type V = BlockS;

    open spec fn view(&self) -> BlockS {
        BlockS { name: self.name, body: ops_view(self.body@) }
    }
}

/// The mirror of a sequence of blocks.
pub open spec fn blocks_view(s: Seq<Block>) -> Seq<BlockS> {
    s.map_values(|b: Block| b@)
}

/// A lowered function: name, entry parameter count, the full ordered register
/// declaration list (a register's id is its index here), the return machine
/// type, and the ordered blocks.
#[derive(PartialEq, Eq, Debug)]
pub struct Function {
    pub name: Symbol,
    pub nparams: usize,
    pub regs: Vec<LTy>,
    pub ret_ty: LTy,
    pub body: Vec<Block>,
}

/// The ghost mirror of `Function`.
pub ghost struct FunctionS {
    pub name: Symbol,
    pub nparams: int,
    pub regs: Seq<LTy>,
    pub ret_ty: LTy,
    pub body: Seq<BlockS>,
}

impl View for Function {
    type V = FunctionS;

    open spec fn view(&self) -> FunctionS {
        FunctionS {
            name: self.name,
            nparams: self.nparams as int,
            regs: self.regs@,
            ret_ty: self.ret_ty,
            body: blocks_view(self.body@),
        }
    }
}

/// The mirror of a sequence of lowered functions.
pub open spec fn funcs_view(s: Seq<Function>) -> Seq<FunctionS> {
    s.map_values(|f: Function| f@)
}

/// A whole lowered program: an ordered list of functions.
#[derive(PartialEq, Eq, Debug)]
pub struct LIR(pub Vec<Function>);

impl View for LIR {
    type V = Seq<FunctionS>;

    open spec fn view(&self) -> Seq<FunctionS> {
        funcs_view(self.0@)
    }
}

} // verus!
