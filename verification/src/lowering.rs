//! The meaning of the translation: specification functions that give, for each
//! operation, block and function of the input, exactly the instructions,
//! registers and errors the translator produces.
//!
//! Per-operation lowering takes the symbol table, the target table and the
//! machine types of the registers allocated so far (the next fresh register id
//! is that list's length), and yields the emitted instructions together with
//! the types of any registers it allocated. Folds over operations and blocks
//! thread the register list through; the first error aborts the fold.

use vstd::prelude::*;
use crate::lir::{Addr, LTy, Label, OpS, BlockS, FunctionS, Reg, lty_size};
use crate::mir::{EbbTy, Literal, Op, Symbol};
use crate::mir;
use crate::table::{st_lookup, tt_lookup, lty_of, symbol_state_of, target_table_of};

verus! {

/// An internal invariant violation: malformed or ill-typed input, on which
/// translation aborts rather than emit wrong instructions.
#[derive(Clone, Copy, PartialEq, Eq, Structural, Debug)]
pub enum TransError {
    /// A function with no blocks: there is no entry block to read.
    EmptyBody,
    /// A symbol was read that no parameter or destination ever bound.
    UnresolvedSymbol,
    /// A polymorphic comparison whose operands' machine types are not one of
    /// the supported same-width pairings.
    UnsupportedOperands,
    /// An arithmetic operation declared at a type other than `Int` or `Float`.
    UnsupportedArith,
    /// A jump or default-branch label that names no block.
    MissingTarget,
    /// A default branch target with other than exactly one parameter.
    DefaultArity,
    /// A linear-chain branch discriminant not held in a 32-bit register.
    BranchCondWidth,
    /// A heap aggregate or field offset that does not fit the 32-bit offset
    /// space.
    SizeOverflow,
}

/// Which overloaded arithmetic operation is being lowered.
#[derive(Clone, Copy, PartialEq, Eq, Structural, Debug)]
pub enum ArithKind {
    Add,
    Sub,
    Mul,
}

/// Which polymorphic comparison is being lowered.
#[derive(Clone, Copy, PartialEq, Eq, Structural, Debug)]
pub enum CmpKind {
    Eq,
    Neq,
    Gt,
    Ge,
    Lt,
    Le,
}

/// The type-directed move used for block-parameter passing: pointer values go
/// through the 32-bit move form, as the translator currently emits them.
pub open spec fn move_instr(t: LTy, dst: Reg, src: Reg) -> OpS {
    match t {
        LTy::I64 => OpS::MoveI64(dst, src),
        LTy::F32 => OpS::MoveF32(dst, src),
        LTy::F64 => OpS::MoveF64(dst, src),
        _ => OpS::MoveI32(dst, src),
    }
}

/// The type-directed store used for heap fields: pointer values go through the
/// 32-bit store form, as the translator currently emits them.
pub open spec fn store_instr(t: LTy, a: Addr, v: Reg) -> OpS {
    match t {
        LTy::I64 => OpS::StoreI64(a, v),
        LTy::F32 => OpS::StoreF32(a, v),
        LTy::F64 => OpS::StoreF64(a, v),
        _ => OpS::StoreI32(a, v),
    }
}

/// The type-directed load used for tuple projection.
pub open spec fn load_instr(t: LTy, d: Reg, a: Addr) -> OpS {
    match t {
        LTy::F32 => OpS::LoadF32(d, a),
        LTy::F64 => OpS::LoadF64(d, a),
        LTy::I32 => OpS::LoadI32(d, a),
        _ => OpS::LoadI64(d, a),
    }
}

/// The typed arithmetic instruction for an operation kind.
pub open spec fn arith_instr(k: ArithKind, float: bool, d: Reg, l: Reg, r: Reg) -> OpS {
    match k {
        ArithKind::Add => if float {
            OpS::AddF64(d, l, r)
        } else {
            OpS::AddI32(d, l, r)
        },
        ArithKind::Sub => if float {
            OpS::SubF64(d, l, r)
        } else {
            OpS::SubI32(d, l, r)
        },
        ArithKind::Mul => if float {
            OpS::MulF64(d, l, r)
        } else {
            OpS::MulI32(d, l, r)
        },
    }
}

/// The supported operand pairings of a polymorphic comparison: both operands
/// in registers of the same 32- or 64-bit machine type.
pub open spec fn cmp_supported(a: LTy, b: LTy) -> bool {
    a == b && (a == LTy::I32 || a == LTy::I64 || a == LTy::F32 || a == LTy::F64)
}

/// The typed comparison instruction for a kind and an operand machine type.
pub open spec fn cmp_instr(k: CmpKind, t: LTy, d: Reg, l: Reg, r: Reg) -> OpS {
    match k {
        CmpKind::Eq => match t {
            LTy::I64 => OpS::EqI64(d, l, r),
            LTy::F32 => OpS::EqF32(d, l, r),
            LTy::F64 => OpS::EqF64(d, l, r),
            _ => OpS::EqI32(d, l, r),
        },
        CmpKind::Neq => match t {
            LTy::I64 => OpS::NeqI64(d, l, r),
            LTy::F32 => OpS::NeqF32(d, l, r),
            LTy::F64 => OpS::NeqF64(d, l, r),
            _ => OpS::NeqI32(d, l, r),
        },
        CmpKind::Gt => match t {
            LTy::I64 => OpS::GtI64(d, l, r),
            LTy::F32 => OpS::GtF32(d, l, r),
            LTy::F64 => OpS::GtF64(d, l, r),
            _ => OpS::GtI32(d, l, r),
        },
        CmpKind::Ge => match t {
            LTy::I64 => OpS::GeI64(d, l, r),
            LTy::F32 => OpS::GeF32(d, l, r),
            LTy::F64 => OpS::GeF64(d, l, r),
            _ => OpS::GeI32(d, l, r),
        },
        CmpKind::Lt => match t {
            LTy::I64 => OpS::LtI64(d, l, r),
            LTy::F32 => OpS::LtF32(d, l, r),
            LTy::F64 => OpS::LtF64(d, l, r),
            _ => OpS::LtI32(d, l, r),
        },
        CmpKind::Le => match t {
            LTy::I64 => OpS::LeI64(d, l, r),
            LTy::F32 => OpS::LeF32(d, l, r),
            LTy::F64 => OpS::LeF64(d, l, r),
            _ => OpS::LeI32(d, l, r),
        },
    }
}

/// A literal: booleans and integers materialize as 32-bit integer constants
/// (the integer truncated to 32 bits), floats as 64-bit float constants.
pub open spec fn lower_lit(tbl: Seq<(Symbol, Reg)>, var: Symbol, value: Literal) -> Result<
    Seq<OpS>,
    TransError,
> {
    match st_lookup(tbl, var) {
        None => Err(TransError::UnresolvedSymbol),
        Some(d) => Ok(
            seq![
                match value {
                    Literal::Bool(b) => OpS::ConstI32(d, if b { 1u32 } else { 0u32 }),
                    Literal::Int(i) => OpS::ConstI32(d, i as u32),
                    Literal::Float(bits) => OpS::ConstF64(d, bits),
                }
            ],
        ),
    }
}

/// An alias: a type-directed move, and nothing at all for a Unit value.
pub open spec fn lower_alias(tbl: Seq<(Symbol, Reg)>, var: Symbol, ty: EbbTy, sym: Symbol) -> Result<
    Seq<OpS>,
    TransError,
> {
    match ty {
        EbbTy::Unit => Ok(Seq::<OpS>::empty()),
        _ => match (st_lookup(tbl, var), st_lookup(tbl, sym)) {
            (Some(d), Some(s0)) => Ok(
                seq![
                    match ty {
                        EbbTy::Bool => OpS::MoveI32(d, s0),
                        EbbTy::Float => OpS::MoveF64(d, s0),
                        _ => OpS::MoveI64(d, s0),
                    }
                ],
            ),
            _ => Err(TransError::UnresolvedSymbol),
        },
    }
}

/// Overloaded arithmetic: `Int` selects the 32-bit integer instruction,
/// `Float` the 64-bit float instruction, and any other declared type is an
/// internal error.
pub open spec fn lower_arith(
    tbl: Seq<(Symbol, Reg)>,
    k: ArithKind,
    var: Symbol,
    ty: EbbTy,
    l: Symbol,
    r: Symbol,
) -> Result<Seq<OpS>, TransError> {
    match ty {
        EbbTy::Int => match (st_lookup(tbl, var), st_lookup(tbl, l), st_lookup(tbl, r)) {
            (Some(d), Some(lr), Some(rr)) => Ok(seq![arith_instr(k, false, d, lr, rr)]),
            _ => Err(TransError::UnresolvedSymbol),
        },
        EbbTy::Float => match (st_lookup(tbl, var), st_lookup(tbl, l), st_lookup(tbl, r)) {
            (Some(d), Some(lr), Some(rr)) => Ok(seq![arith_instr(k, true, d, lr, rr)]),
            _ => Err(TransError::UnresolvedSymbol),
        },
        _ => Err(TransError::UnsupportedArith),
    }
}

/// Integer division: directly the 32-bit integer division instruction.
pub open spec fn lower_divint(tbl: Seq<(Symbol, Reg)>, var: Symbol, l: Symbol, r: Symbol) -> Result<
    Seq<OpS>,
    TransError,
> {
    match (st_lookup(tbl, var), st_lookup(tbl, l), st_lookup(tbl, r)) {
        (Some(d), Some(lr), Some(rr)) => Ok(seq![OpS::DivI32(d, lr, rr)]),
        _ => Err(TransError::UnresolvedSymbol),
    }
}

/// Float division: directly the 64-bit float division instruction.
pub open spec fn lower_divfloat(tbl: Seq<(Symbol, Reg)>, var: Symbol, l: Symbol, r: Symbol) -> Result<
    Seq<OpS>,
    TransError,
> {
    match (st_lookup(tbl, var), st_lookup(tbl, l), st_lookup(tbl, r)) {
        (Some(d), Some(lr), Some(rr)) => Ok(seq![OpS::DivF64(d, lr, rr)]),
        _ => Err(TransError::UnresolvedSymbol),
    }
}

/// Remainder: directly the 32-bit integer modulo instruction.
pub open spec fn lower_mod(tbl: Seq<(Symbol, Reg)>, var: Symbol, l: Symbol, r: Symbol) -> Result<
    Seq<OpS>,
    TransError,
> {
    match (st_lookup(tbl, var), st_lookup(tbl, l), st_lookup(tbl, r)) {
        (Some(d), Some(lr), Some(rr)) => Ok(seq![OpS::ModI32(d, lr, rr)]),
        _ => Err(TransError::UnresolvedSymbol),
    }
}

/// A polymorphic comparison, overloaded on the machine types already allocated
/// to both operands; only same-width pairings are supported.
pub open spec fn lower_cmp(
    tbl: Seq<(Symbol, Reg)>,
    k: CmpKind,
    var: Symbol,
    l: Symbol,
    r: Symbol,
) -> Result<Seq<OpS>, TransError> {
    match (st_lookup(tbl, l), st_lookup(tbl, r)) {
        (Some(lr), Some(rr)) => if cmp_supported(lr.ty, rr.ty) {
            match st_lookup(tbl, var) {
                Some(d) => Ok(seq![cmp_instr(k, lr.ty, d, lr, rr)]),
                None => Err(TransError::UnresolvedSymbol),
            }
        } else {
            Err(TransError::UnsupportedOperands)
        },
        _ => Err(TransError::UnresolvedSymbol),
    }
}

/// The machine types of a list of source-level types.
pub open spec fn ltys_of(tys: Seq<EbbTy>) -> Seq<LTy> {
    tys.map_values(|t: EbbTy| lty_of(t))
}

/// The stores of the first `n` tuple fields, each at its fixed 8-byte-stride
/// offset; Unit fields store nothing but still advance the offset.
pub open spec fn tuple_stores_upto(
    tbl: Seq<(Symbol, Reg)>,
    base: Reg,
    fields: Seq<Symbol>,
    ltys: Seq<LTy>,
    n: int,
) -> Result<Seq<OpS>, TransError>
    decreases n,
{
    if n <= 0 {
        Ok(Seq::<OpS>::empty())
    } else {
        match tuple_stores_upto(tbl, base, fields, ltys, n - 1) {
            Err(e) => Err(e),
            Ok(pre) => {
                let t = ltys[n - 1];
                if t == LTy::Unit {
                    Ok(pre)
                } else {
                    match st_lookup(tbl, fields[n - 1]) {
                        None => Err(TransError::UnresolvedSymbol),
                        Some(fr) => Ok(
                            pre.push(
                                store_instr(t, Addr { base, offset: (8 * (n - 1)) as u32 }, fr),
                            ),
                        ),
                    }
                }
            },
        }
    }
}

/// Tuple construction: one heap allocation of 8 bytes per field, tagged with
/// the mapped field types, then one type-directed store per non-Unit field.
/// Fields beyond the declared type list store nothing.
pub open spec fn lower_tuple(
    tbl: Seq<(Symbol, Reg)>,
    var: Symbol,
    tys: Seq<EbbTy>,
    fields: Seq<Symbol>,
) -> Result<Seq<OpS>, TransError> {
    match st_lookup(tbl, var) {
        None => Err(TransError::UnresolvedSymbol),
        Some(reg) => if 8 * tys.len() > u32::MAX as int {
            Err(TransError::SizeOverflow)
        } else {
            let ltys = ltys_of(tys);
            let n = if fields.len() <= tys.len() {
                fields.len() as int
            } else {
                tys.len() as int
            };
            match tuple_stores_upto(tbl, reg, fields, ltys, n) {
                Err(e) => Err(e),
                Ok(stores) => Ok(
                    seq![OpS::HeapAlloc(reg, (8 * tys.len()) as u32, ltys)] + stores,
                ),
            }
        },
    }
}

/// Tuple projection: one type-directed load at offset `index * 8`, and nothing
/// at all for a Unit field.
pub open spec fn lower_proj(
    tbl: Seq<(Symbol, Reg)>,
    var: Symbol,
    ty: EbbTy,
    index: u32,
    tuple: Symbol,
) -> Result<Seq<OpS>, TransError> {
    if lty_of(ty) == LTy::Unit {
        Ok(Seq::<OpS>::empty())
    } else {
        match (st_lookup(tbl, var), st_lookup(tbl, tuple)) {
            (Some(d), Some(base)) => if 8 * (index as int) > u32::MAX as int {
                Err(TransError::SizeOverflow)
            } else {
                Ok(seq![load_instr(lty_of(ty), d, Addr { base, offset: (8 * index as int) as u32 })])
            },
            _ => Err(TransError::UnresolvedSymbol),
        }
    }
}

/// The machine types of the captured environment, in capture order.
pub open spec fn env_ltys(env: Seq<(EbbTy, Symbol)>) -> Seq<LTy> {
    env.map_values(|e: (EbbTy, Symbol)| lty_of(e.0))
}

/// The summed real machine sizes of the first `n` captured values.
pub open spec fn sum_sizes_upto(env: Seq<(EbbTy, Symbol)>, n: int) -> int
    decreases n,
{
    if n <= 0 {
        0
    } else {
        sum_sizes_upto(env, n - 1) + lty_size(lty_of(env[n - 1].0))
    }
}

/// The stores of the first `n` captured values, at successive 8-byte-strided
/// offsets starting at 8 (slot 0 holds the function reference); Unit captures
/// store nothing but still advance the offset.
pub open spec fn closure_stores_upto(
    tbl: Seq<(Symbol, Reg)>,
    base: Reg,
    env: Seq<(EbbTy, Symbol)>,
    n: int,
) -> Result<Seq<OpS>, TransError>
    decreases n,
{
    if n <= 0 {
        Ok(Seq::<OpS>::empty())
    } else {
        match closure_stores_upto(tbl, base, env, n - 1) {
            Err(e) => Err(e),
            Ok(pre) => {
                let t = lty_of(env[n - 1].0);
                if t == LTy::Unit {
                    Ok(pre)
                } else {
                    match st_lookup(tbl, env[n - 1].1) {
                        None => Err(TransError::UnresolvedSymbol),
                        Some(vr) => Ok(
                            pre.push(
                                store_instr(t, Addr { base, offset: (8 + 8 * (n - 1)) as u32 }, vr),
                            ),
                        ),
                    }
                }
            },
        }
    }
}

/// Closure construction: a heap object of pointer width plus the real sizes of
/// the captures, tagged `[FPtr, capture types...]`; the function reference is
/// stored at offset 0 and each capture at successive 8-byte-strided offsets
/// starting at 8.
pub open spec fn lower_closure(
    tbl: Seq<(Symbol, Reg)>,
    var: Symbol,
    fun: Symbol,
    env: Seq<(EbbTy, Symbol)>,
) -> Result<Seq<OpS>, TransError> {
    match st_lookup(tbl, var) {
        None => Err(TransError::UnresolvedSymbol),
        Some(reg) => if 8 + 8 * env.len() > u32::MAX as int {
            Err(TransError::SizeOverflow)
        } else {
            let size = (8 + sum_sizes_upto(env, env.len() as int)) as u32;
            match closure_stores_upto(tbl, reg, env, env.len() as int) {
                Err(e) => Err(e),
                Ok(stores) => Ok(
                    seq![
                        OpS::HeapAlloc(reg, size, seq![LTy::FPtr] + env_ltys(env)),
                        OpS::StoreFnPtr(Addr { base: reg, offset: 0 }, fun),
                    ] + stores,
                ),
            }
        },
    }
}

/// The registers of the first `n` call arguments, in order.
pub open spec fn args_regs_upto(tbl: Seq<(Symbol, Reg)>, args: Seq<Symbol>, n: int) -> Result<
    Seq<Reg>,
    TransError,
>
    decreases n,
{
    if n <= 0 {
        Ok(Seq::<Reg>::empty())
    } else {
        match args_regs_upto(tbl, args, n - 1) {
            Err(e) => Err(e),
            Ok(pre) => match st_lookup(tbl, args[n - 1]) {
                None => Err(TransError::UnresolvedSymbol),
                Some(r) => Ok(pre.push(r)),
            },
        }
    }
}

/// A builtin call: one instruction naming the builtin and the argument
/// registers.
pub open spec fn lower_builtin(
    tbl: Seq<(Symbol, Reg)>,
    var: Symbol,
    fun: Symbol,
    args: Seq<Symbol>,
) -> Result<Seq<OpS>, TransError> {
    match args_regs_upto(tbl, args, args.len() as int) {
        Err(e) => Err(e),
        Ok(rs) => match st_lookup(tbl, var) {
            None => Err(TransError::UnresolvedSymbol),
            Some(d) => Ok(seq![OpS::BuiltinCall(d, fun, rs)]),
        },
    }
}

/// A call: indirect through the callee's register when the callee symbol is
/// bound (a closure or local value), and direct by name otherwise (an external
/// or global function).
pub open spec fn lower_call(
    tbl: Seq<(Symbol, Reg)>,
    var: Symbol,
    fun: Symbol,
    args: Seq<Symbol>,
) -> Result<Seq<OpS>, TransError> {
    match args_regs_upto(tbl, args, args.len() as int) {
        Err(e) => Err(e),
        Ok(rs) => match (st_lookup(tbl, fun), st_lookup(tbl, var)) {
            (Some(fr), Some(d)) => Ok(seq![OpS::ClosureCall(d, fr, rs)]),
            (None, Some(d)) => Ok(seq![OpS::FunCall(d, fun, rs)]),
            _ => Err(TransError::UnresolvedSymbol),
        },
    }
}

/// Stable insertion of a branch clause into a key-sorted prefix: the clause
/// goes after every clause whose key is less than or equal to its own.
pub open spec fn insert_pair(s: Seq<(u32, Symbol)>, p: (u32, Symbol)) -> Seq<(u32, Symbol)>
    decreases s.len(),
{
    if s.len() == 0 {
        seq![p]
    } else if p.0 < s[0].0 {
        seq![p] + s
    } else {
        seq![s[0]] + insert_pair(s.drop_first(), p)
    }
}

/// The first `n` clauses, insertion-sorted by key ascending (a stable sort).
pub open spec fn sort_pairs_upto(cl: Seq<(u32, Symbol)>, n: int) -> Seq<(u32, Symbol)>
    decreases n,
{
    if n <= 0 {
        Seq::empty()
    } else {
        insert_pair(sort_pairs_upto(cl, n - 1), cl[n - 1])
    }
}

/// The (key, target) pairs of a clause list; clause argument lists are not
/// forwarded by branch lowering, so they play no part.
pub open spec fn clause_pairs(clauses: Seq<(u32, Symbol, Vec<Symbol>)>) -> Seq<(u32, Symbol)> {
    clauses.map_values(|c: (u32, Symbol, Vec<Symbol>)| (c.0, c.1))
}

/// A branch's clauses, sorted by key ascending.
pub open spec fn sorted_clauses(clauses: Seq<(u32, Symbol, Vec<Symbol>)>) -> Seq<(u32, Symbol)> {
    sort_pairs_upto(clause_pairs(clauses), clauses.len() as int)
}

/// Sorted clause keys forming exactly the contiguous range `0..len-1`.
pub open spec fn is_dense(s: Seq<(u32, Symbol)>) -> bool {
    s.len() > 0 && (forall|i: int| 0 <= i < s.len() ==> s[i].0 as int == i)
}

/// The ordered jump-table targets of a sorted clause list.
pub open spec fn table_labels(s: Seq<(u32, Symbol)>) -> Seq<Label> {
    s.map_values(|p: (u32, Symbol)| Label(p.1))
}

/// The linear compare-and-conditional-jump chain over the first `n` sorted
/// clauses: materialize the key, compare for 32-bit equality, jump on match.
pub open spec fn chain_upto(
    cond: Reg,
    boolean: Reg,
    constant: Reg,
    s: Seq<(u32, Symbol)>,
    n: int,
) -> Seq<OpS>
    decreases n,
{
    if n <= 0 {
        Seq::empty()
    } else {
        chain_upto(cond, boolean, constant, s, n - 1) + seq![
            OpS::ConstI32(constant, s[n - 1].0),
            OpS::EqI32(boolean, cond, constant),
            OpS::JumpIfI32(boolean, Label(s[n - 1].1)),
        ]
    }
}

/// Branch dispatch after the default move: a dense key range becomes one jump
/// table; anything else becomes a linear chain over two fresh 32-bit scratch
/// registers, requiring a 32-bit discriminant, followed by a jump to the
/// default label if one exists.
pub open spec fn branch_rest(
    tbl: Seq<(Symbol, Reg)>,
    regs: Seq<LTy>,
    cond: Symbol,
    sorted: Seq<(u32, Symbol)>,
    moves: Seq<OpS>,
    dlabel: Option<Label>,
) -> Result<(Seq<OpS>, Seq<LTy>), TransError> {
    match st_lookup(tbl, cond) {
        None => Err(TransError::UnresolvedSymbol),
        Some(cr) => if is_dense(sorted) {
            Ok((moves.push(OpS::JumpTableI32(cr, table_labels(sorted), dlabel)), Seq::<LTy>::empty()))
        } else if cr.ty != LTy::I32 {
            Err(TransError::BranchCondWidth)
        } else {
            let boolean = Reg { ty: LTy::I32, id: regs.len() as usize };
            let constant = Reg { ty: LTy::I32, id: (regs.len() + 1) as usize };
            let chain = chain_upto(cr, boolean, constant, sorted, sorted.len() as int);
            let tail = match dlabel {
                None => Seq::<OpS>::empty(),
                Some(l) => seq![OpS::Jump(l)],
            };
            Ok((moves + chain + tail, seq![LTy::I32, LTy::I32]))
        },
    }
}

/// A multi-way branch: sort the clauses by key; with a default, move the
/// discriminant into the default target's single declared parameter (any other
/// arity is an internal error); then dispatch densely or linearly.
pub open spec fn lower_branch(
    tbl: Seq<(Symbol, Reg)>,
    tt: Seq<(Symbol, Seq<Reg>)>,
    regs: Seq<LTy>,
    cond: Symbol,
    clauses: Seq<(u32, Symbol, Vec<Symbol>)>,
    default: Option<(Symbol, Vec<Symbol>)>,
) -> Result<(Seq<OpS>, Seq<LTy>), TransError> {
    let sorted = sorted_clauses(clauses);
    match default {
        None => branch_rest(tbl, regs, cond, sorted, Seq::<OpS>::empty(), None),
        Some(d) => match tt_lookup(tt, d.0) {
            None => Err(TransError::MissingTarget),
            Some(params) => if params.len() != 1 {
                Err(TransError::DefaultArity)
            } else {
                let p = params[0];
                if p.ty == LTy::Unit {
                    branch_rest(tbl, regs, cond, sorted, Seq::<OpS>::empty(), Some(Label(d.0)))
                } else {
                    match st_lookup(tbl, cond) {
                        None => Err(TransError::UnresolvedSymbol),
                        Some(cr) => branch_rest(
                            tbl,
                            regs,
                            cond,
                            sorted,
                            seq![move_instr(p.ty, p, cr)],
                            Some(Label(d.0)),
                        ),
                    }
                }
            },
        },
    }
}

/// The parameter-passing moves of a jump: one type-directed move per non-Unit
/// declared parameter of the target, paired positionally with the supplied
/// arguments.
pub open spec fn jump_moves_upto(
    tbl: Seq<(Symbol, Reg)>,
    params: Seq<Reg>,
    args: Seq<Symbol>,
    n: int,
) -> Result<Seq<OpS>, TransError>
    decreases n,
{
    if n <= 0 {
        Ok(Seq::<OpS>::empty())
    } else {
        match jump_moves_upto(tbl, params, args, n - 1) {
            Err(e) => Err(e),
            Ok(pre) => {
                let p = params[n - 1];
                if p.ty == LTy::Unit {
                    Ok(pre)
                } else {
                    match st_lookup(tbl, args[n - 1]) {
                        None => Err(TransError::UnresolvedSymbol),
                        Some(ar) => Ok(pre.push(move_instr(p.ty, p, ar))),
                    }
                }
            },
        }
    }
}

/// An unconditional parameterized jump: the parameter moves, then the jump.
pub open spec fn lower_jump(
    tbl: Seq<(Symbol, Reg)>,
    tt: Seq<(Symbol, Seq<Reg>)>,
    target: Symbol,
    args: Seq<Symbol>,
) -> Result<Seq<OpS>, TransError> {
    match tt_lookup(tt, target) {
        None => Err(TransError::MissingTarget),
        Some(params) => {
            let n = if params.len() <= args.len() {
                params.len() as int
            } else {
                args.len() as int
            };
            match jump_moves_upto(tbl, params, args, n) {
                Err(e) => Err(e),
                Ok(moves) => Ok(moves.push(OpS::Jump(Label(target)))),
            }
        },
    }
}

/// A return, carrying the value register unless the function returns Unit.
pub open spec fn lower_ret(tbl: Seq<(Symbol, Reg)>, value: Option<Symbol>) -> Result<
    Seq<OpS>,
    TransError,
> {
    match value {
        None => Ok(seq![OpS::Ret(None)]),
        Some(v) => match st_lookup(tbl, v) {
            None => Err(TransError::UnresolvedSymbol),
            Some(r) => Ok(seq![OpS::Ret(Some(r))]),
        },
    }
}

/// Wraps an operation that never allocates registers.
pub open spec fn with_no_regs(r: Result<Seq<OpS>, TransError>) -> Result<
    (Seq<OpS>, Seq<LTy>),
    TransError,
> {
    match r {
        Ok(c) => Ok((c, Seq::<LTy>::empty())),
        Err(e) => Err(e),
    }
}

/// The lowering of one operation: the emitted instructions and the types of
/// any registers allocated while emitting (only a linear-chain branch
/// allocates, two 32-bit scratch registers).
pub open spec fn lower_op(
    tbl: Seq<(Symbol, Reg)>,
    tt: Seq<(Symbol, Seq<Reg>)>,
    regs: Seq<LTy>,
    op: Op,
) -> Result<(Seq<OpS>, Seq<LTy>), TransError> {
    match op {
        Op::Lit { var, value, .. } => with_no_regs(lower_lit(tbl, var, value)),
        Op::Alias { var, ty, sym } => with_no_regs(lower_alias(tbl, var, ty, sym)),
        Op::Add { var, ty, l, r } => with_no_regs(lower_arith(tbl, ArithKind::Add, var, ty, l, r)),
        Op::Sub { var, ty, l, r } => with_no_regs(lower_arith(tbl, ArithKind::Sub, var, ty, l, r)),
        Op::Mul { var, ty, l, r } => with_no_regs(lower_arith(tbl, ArithKind::Mul, var, ty, l, r)),
        Op::DivInt { var, l, r, .. } => with_no_regs(lower_divint(tbl, var, l, r)),
        Op::DivFloat { var, l, r, .. } => with_no_regs(lower_divfloat(tbl, var, l, r)),
        Op::Mod { var, l, r, .. } => with_no_regs(lower_mod(tbl, var, l, r)),
        Op::Eq { var, l, r, .. } => with_no_regs(lower_cmp(tbl, CmpKind::Eq, var, l, r)),
        Op::Neq { var, l, r, .. } => with_no_regs(lower_cmp(tbl, CmpKind::Neq, var, l, r)),
        Op::Gt { var, l, r, .. } => with_no_regs(lower_cmp(tbl, CmpKind::Gt, var, l, r)),
        Op::Ge { var, l, r, .. } => with_no_regs(lower_cmp(tbl, CmpKind::Ge, var, l, r)),
        Op::Lt { var, l, r, .. } => with_no_regs(lower_cmp(tbl, CmpKind::Lt, var, l, r)),
        Op::Le { var, l, r, .. } => with_no_regs(lower_cmp(tbl, CmpKind::Le, var, l, r)),
        Op::Tuple { var, tys, tuple } => with_no_regs(lower_tuple(tbl, var, tys@, tuple@)),
        Op::Proj { var, ty, index, tuple } => with_no_regs(lower_proj(tbl, var, ty, index, tuple)),
        Op::Closure { var, fun, env } => with_no_regs(lower_closure(tbl, var, fun, env@)),
        Op::BuiltinCall { var, fun, args, .. } => with_no_regs(lower_builtin(tbl, var, fun, args@)),
        Op::Call { var, fun, args, .. } => with_no_regs(lower_call(tbl, var, fun, args@)),
        Op::Branch { cond, clauses, default } => lower_branch(tbl, tt, regs, cond, clauses@, default),
        Op::Jump { target, args } => with_no_regs(lower_jump(tbl, tt, target, args@)),
        Op::Ret { value } => with_no_regs(lower_ret(tbl, value)),
    }
}

/// The lowering of a block's first `n` operations: instructions accumulate in
/// order, the register list grows by each operation's allocations, and the
/// first error aborts.
pub open spec fn lower_ops_upto(
    tbl: Seq<(Symbol, Reg)>,
    tt: Seq<(Symbol, Seq<Reg>)>,
    code0: Seq<OpS>,
    regs0: Seq<LTy>,
    ops: Seq<Op>,
    n: int,
) -> Result<(Seq<OpS>, Seq<LTy>), TransError>
    decreases n,
{
    if n <= 0 {
        Ok((code0, regs0))
    } else {
        match lower_ops_upto(tbl, tt, code0, regs0, ops, n - 1) {
            Err(e) => Err(e),
            Ok(st) => match lower_op(tbl, tt, st.1, ops[n - 1]) {
                Err(e) => Err(e),
                Ok(d) => Ok((st.0 + d.0, st.1 + d.1)),
            },
        }
    }
}

/// The lowering of one whole block.
pub open spec fn lower_block(
    tbl: Seq<(Symbol, Reg)>,
    tt: Seq<(Symbol, Seq<Reg>)>,
    regs0: Seq<LTy>,
    ebb: mir::EBB,
) -> Result<(BlockS, Seq<LTy>), TransError> {
    match lower_ops_upto(tbl, tt, Seq::<OpS>::empty(), regs0, ebb.body@, ebb.body@.len() as int) {
        Err(e) => Err(e),
        Ok(st) => Ok((BlockS { name: Label(ebb.name), body: st.0 }, st.1)),
    }
}

/// The lowering of the first `n` blocks, threading the register list through.
pub open spec fn lower_blocks_upto(
    tbl: Seq<(Symbol, Reg)>,
    tt: Seq<(Symbol, Seq<Reg>)>,
    regs0: Seq<LTy>,
    body: Seq<mir::EBB>,
    n: int,
) -> Result<(Seq<BlockS>, Seq<LTy>), TransError>
    decreases n,
{
    if n <= 0 {
        Ok((Seq::<BlockS>::empty(), regs0))
    } else {
        match lower_blocks_upto(tbl, tt, regs0, body, n - 1) {
            Err(e) => Err(e),
            Ok(st) => match lower_block(tbl, tt, st.1, body[n - 1]) {
                Err(e) => Err(e),
                Ok(b) => Ok((st.0.push(b.0), b.1)),
            },
        }
    }
}

/// The lowering of one whole function: build the symbol and target tables,
/// lower every block in order, and assemble the function record. A function
/// with no blocks has no entry block and is an internal error.
pub open spec fn lower_function_spec(f: mir::Function) -> Result<FunctionS, TransError> {
    if f.body@.len() == 0 {
        Err(TransError::EmptyBody)
    } else {
        let st = symbol_state_of(f.body@);
        let tt = target_table_of(st.tbl, f.body@);
        match lower_blocks_upto(st.tbl, tt, st.regs, f.body@, f.body@.len() as int) {
            Err(e) => Err(e),
            Ok(res) => Ok(
                FunctionS {
                    name: f.name,
                    nparams: f.body@[0].params@.len() as int,
                    regs: res.1,
                    ret_ty: lty_of(f.body_ty),
                    body: res.0,
                },
            ),
        }
    }
}

/// The lowering of the first `n` functions of a program.
pub open spec fn lower_mir_upto(fs: Seq<mir::Function>, n: int) -> Result<Seq<FunctionS>, TransError>
    decreases n,
{
    if n <= 0 {
        Ok(Seq::<FunctionS>::empty())
    } else {
        match lower_mir_upto(fs, n - 1) {
            Err(e) => Err(e),
            Ok(pre) => match lower_function_spec(fs[n - 1]) {
                Err(e) => Err(e),
                Ok(g) => Ok(pre.push(g)),
            },
        }
    }
}

/// The lowering of a whole program: every function independently, in order;
/// the first failing function aborts the whole translation.
pub open spec fn lower_mir_spec(m: mir::MIR) -> Result<Seq<FunctionS>, TransError> {
    lower_mir_upto(m.0@, m.0@.len() as int)
}

// ---------------------------------------------------------------------------
// Once a fold hits an error, the fold's final result is that error.
// ---------------------------------------------------------------------------

/// Inserting at the first position whose key exceeds the new key is exactly
/// the stable insertion.
pub proof fn lemma_insert_pair_at(s: Seq<(u32, Symbol)>, p: (u32, Symbol), pos: int)
    requires
        0 <= pos <= s.len(),
        forall|k: int| 0 <= k < pos ==> s[k].0 <= p.0,
        pos < s.len() ==> p.0 < s[pos].0,
    ensures
        insert_pair(s, p) == s.take(pos) + seq![p] + s.skip(pos),
    decreases s.len(),
{
    if pos == 0 {
        if s.len() == 0 {
            assert(insert_pair(s, p) =~= s.take(0) + seq![p] + s.skip(0));
        } else {
            assert(p.0 < s[0].0);
            assert(seq![p] + s =~= s.take(0) + seq![p] + s.skip(0));
        }
    } else {
        assert(s[0].0 <= p.0);
        let t = s.drop_first();
        assert(forall|k: int| 0 <= k < t.len() ==> t[k] == s[k + 1]);
        lemma_insert_pair_at(t, p, pos - 1);
        assert(seq![s[0]] + (t.take(pos - 1) + seq![p] + t.skip(pos - 1)) =~= s.take(pos) + seq![p]
            + s.skip(pos));
    }
}

/// Error persistence for the tuple-store fold.
pub proof fn lemma_tuple_stores_err(
    tbl: Seq<(Symbol, Reg)>,
    base: Reg,
    fields: Seq<Symbol>,
    ltys: Seq<LTy>,
    n: int,
    m: int,
)
    requires
        n <= m,
        tuple_stores_upto(tbl, base, fields, ltys, n) is Err,
    ensures
        tuple_stores_upto(tbl, base, fields, ltys, m) == tuple_stores_upto(tbl, base, fields, ltys, n),
    decreases m,
{
    if n < m {
        lemma_tuple_stores_err(tbl, base, fields, ltys, n, m - 1);
    }
}

/// Error persistence for the closure-store fold.
pub proof fn lemma_closure_stores_err(
    tbl: Seq<(Symbol, Reg)>,
    base: Reg,
    env: Seq<(EbbTy, Symbol)>,
    n: int,
    m: int,
)
    requires
        n <= m,
        closure_stores_upto(tbl, base, env, n) is Err,
    ensures
        closure_stores_upto(tbl, base, env, m) == closure_stores_upto(tbl, base, env, n),
    decreases m,
{
    if n < m {
        lemma_closure_stores_err(tbl, base, env, n, m - 1);
    }
}

/// Error persistence for the argument-register fold.
pub proof fn lemma_args_regs_err(tbl: Seq<(Symbol, Reg)>, args: Seq<Symbol>, n: int, m: int)
    requires
        n <= m,
        args_regs_upto(tbl, args, n) is Err,
    ensures
        args_regs_upto(tbl, args, m) == args_regs_upto(tbl, args, n),
    decreases m,
{
    if n < m {
        lemma_args_regs_err(tbl, args, n, m - 1);
    }
}

/// Error persistence for the jump-move fold.
pub proof fn lemma_jump_moves_err(
    tbl: Seq<(Symbol, Reg)>,
    params: Seq<Reg>,
    args: Seq<Symbol>,
    n: int,
    m: int,
)
    requires
        n <= m,
        jump_moves_upto(tbl, params, args, n) is Err,
    ensures
        jump_moves_upto(tbl, params, args, m) == jump_moves_upto(tbl, params, args, n),
    decreases m,
{
    if n < m {
        lemma_jump_moves_err(tbl, params, args, n, m - 1);
    }
}

/// Error persistence for the per-block fold.
pub proof fn lemma_lower_ops_err(
    tbl: Seq<(Symbol, Reg)>,
    tt: Seq<(Symbol, Seq<Reg>)>,
    code0: Seq<OpS>,
    regs0: Seq<LTy>,
    ops: Seq<Op>,
    n: int,
    m: int,
)
    requires
        n <= m,
        lower_ops_upto(tbl, tt, code0, regs0, ops, n) is Err,
    ensures
        lower_ops_upto(tbl, tt, code0, regs0, ops, m) == lower_ops_upto(
            tbl,
            tt,
            code0,
            regs0,
            ops,
            n,
        ),
    decreases m,
{
    if n < m {
        lemma_lower_ops_err(tbl, tt, code0, regs0, ops, n, m - 1);
    }
}

/// Error persistence for the per-function fold over blocks.
pub proof fn lemma_lower_blocks_err(
    tbl: Seq<(Symbol, Reg)>,
    tt: Seq<(Symbol, Seq<Reg>)>,
    regs0: Seq<LTy>,
    body: Seq<mir::EBB>,
    n: int,
    m: int,
)
    requires
        n <= m,
        lower_blocks_upto(tbl, tt, regs0, body, n) is Err,
    ensures
        lower_blocks_upto(tbl, tt, regs0, body, m) == lower_blocks_upto(tbl, tt, regs0, body, n),
    decreases m,
{
    if n < m {
        lemma_lower_blocks_err(tbl, tt, regs0, body, n, m - 1);
    }
}

/// Error persistence for the per-program fold over functions.
pub proof fn lemma_lower_mir_err(fs: Seq<mir::Function>, n: int, m: int)
    requires
        n <= m,
        lower_mir_upto(fs, n) is Err,
    ensures
        lower_mir_upto(fs, m) == lower_mir_upto(fs, n),
    decreases m,
{
    if n < m {
        lemma_lower_mir_err(fs, n, m - 1);
    }
}

} // verus!
