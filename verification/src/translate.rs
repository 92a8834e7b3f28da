//! The executable translator, proved to return exactly what the specification
//! functions in `lowering` say.

use vstd::prelude::*;
use crate::lir;
use crate::lir::{Addr, LTy, Label, OpS, Reg, ops_view};
use crate::mir;
use crate::mir::{EbbTy, Literal, Op, Symbol};
use crate::lowering::{
    ArithKind, CmpKind, TransError, arith_instr, args_regs_upto, chain_upto, clause_pairs,
    closure_stores_upto, cmp_instr, cmp_supported, env_ltys, insert_pair, is_dense,
    jump_moves_upto, lemma_args_regs_err, lemma_closure_stores_err, lemma_insert_pair_at,
    lemma_jump_moves_err, lemma_tuple_stores_err, load_instr, lower_alias, lower_arith,
    lower_branch, lower_builtin, lower_call, lower_closure, lower_cmp, lower_divfloat,
    lower_divint, lower_jump, lower_lit, lower_mod, lower_proj, lower_ret, lower_tuple, ltys_of,
    move_instr, sort_pairs_upto, sorted_clauses, store_instr, sum_sizes_upto, table_labels,
    tuple_stores_upto,
};
use crate::lir::{BlockS, FunctionS, blocks_view, funcs_view, lty_size};
use crate::lowering::{
    lemma_lower_blocks_err, lemma_lower_mir_err, lemma_lower_ops_err, lower_blocks_upto,
    lower_function_spec, lower_mir_spec, lower_mir_upto, lower_op, lower_ops_upto,
};
use crate::table::{
    AllocState, RegAlloc, SymbolTable, TargetTable, build_symbol_state, intern_blocks_upto,
    intern_op, intern_ops_upto, intern_params, intern_params_upto, lemma_all_params_present, op_dest,
    lty_of, params_regs, st_lookup, symbol_state_of, target_table_of, tt_upto, tt_view,
};

verus! {

/// The type mapper as a function.
fn map_ty(ty: &EbbTy) -> (r: LTy)
    ensures
        r == lty_of(*ty),
{
    match ty {
        EbbTy::Unit => LTy::Unit,
        EbbTy::Int => LTy::I32,
        EbbTy::Float => LTy::F64,
        EbbTy::Bool => LTy::I32,
        EbbTy::Tuple(_) => LTy::Ptr,
        EbbTy::Cls { .. } => LTy::Ptr,
        EbbTy::Ebb { .. } => LTy::FPtr,
    }
}

/// The type-directed move instruction.
fn exec_move_instr(t: LTy, dst: Reg, src: Reg) -> (o: lir::Op)
    ensures
        o@ == move_instr(t, dst, src),
{
    match t {
        LTy::I64 => lir::Op::MoveI64(dst, src),
        LTy::F32 => lir::Op::MoveF32(dst, src),
        LTy::F64 => lir::Op::MoveF64(dst, src),
        _ => lir::Op::MoveI32(dst, src),
    }
}

/// The type-directed store instruction.
fn exec_store_instr(t: LTy, a: Addr, v: Reg) -> (o: lir::Op)
    ensures
        o@ == store_instr(t, a, v),
{
    match t {
        LTy::I64 => lir::Op::StoreI64(a, v),
        LTy::F32 => lir::Op::StoreF32(a, v),
        LTy::F64 => lir::Op::StoreF64(a, v),
        _ => lir::Op::StoreI32(a, v),
    }
}

/// The type-directed load instruction.
fn exec_load_instr(t: LTy, d: Reg, a: Addr) -> (o: lir::Op)
    ensures
        o@ == load_instr(t, d, a),
{
    match t {
        LTy::F32 => lir::Op::LoadF32(d, a),
        LTy::F64 => lir::Op::LoadF64(d, a),
        LTy::I32 => lir::Op::LoadI32(d, a),
        _ => lir::Op::LoadI64(d, a),
    }
}

/// The typed arithmetic instruction.
fn exec_arith_instr(k: ArithKind, float: bool, d: Reg, l: Reg, r: Reg) -> (o: lir::Op)
    ensures
        o@ == arith_instr(k, float, d, l, r),
{
    match k {
        ArithKind::Add => if float {
            lir::Op::AddF64(d, l, r)
        } else {
            lir::Op::AddI32(d, l, r)
        },
        ArithKind::Sub => if float {
            lir::Op::SubF64(d, l, r)
        } else {
            lir::Op::SubI32(d, l, r)
        },
        ArithKind::Mul => if float {
            lir::Op::MulF64(d, l, r)
        } else {
            lir::Op::MulI32(d, l, r)
        },
    }
}

/// The typed comparison instruction.
fn exec_cmp_instr(k: CmpKind, t: LTy, d: Reg, l: Reg, r: Reg) -> (o: lir::Op)
    ensures
        o@ == cmp_instr(k, t, d, l, r),
{
    match k {
        CmpKind::Eq => match t {
            LTy::I64 => lir::Op::EqI64(d, l, r),
            LTy::F32 => lir::Op::EqF32(d, l, r),
            LTy::F64 => lir::Op::EqF64(d, l, r),
            _ => lir::Op::EqI32(d, l, r),
        },
        CmpKind::Neq => match t {
            LTy::I64 => lir::Op::NeqI64(d, l, r),
            LTy::F32 => lir::Op::NeqF32(d, l, r),
            LTy::F64 => lir::Op::NeqF64(d, l, r),
            _ => lir::Op::NeqI32(d, l, r),
        },
        CmpKind::Gt => match t {
            LTy::I64 => lir::Op::GtI64(d, l, r),
            LTy::F32 => lir::Op::GtF32(d, l, r),
            LTy::F64 => lir::Op::GtF64(d, l, r),
            _ => lir::Op::GtI32(d, l, r),
        },
        CmpKind::Ge => match t {
            LTy::I64 => lir::Op::GeI64(d, l, r),
            LTy::F32 => lir::Op::GeF32(d, l, r),
            LTy::F64 => lir::Op::GeF64(d, l, r),
            _ => lir::Op::GeI32(d, l, r),
        },
        CmpKind::Lt => match t {
            LTy::I64 => lir::Op::LtI64(d, l, r),
            LTy::F32 => lir::Op::LtF32(d, l, r),
            LTy::F64 => lir::Op::LtF64(d, l, r),
            _ => lir::Op::LtI32(d, l, r),
        },
        CmpKind::Le => match t {
            LTy::I64 => lir::Op::LeI64(d, l, r),
            LTy::F32 => lir::Op::LeF32(d, l, r),
            LTy::F64 => lir::Op::LeF64(d, l, r),
            _ => lir::Op::LeI32(d, l, r),
        },
    }
}

/// Appending one instruction appends its mirror to the viewed code.
proof fn lemma_ops_view_push(s: Seq<lir::Op>, x: lir::Op)
    ensures
        ops_view(s.push(x)) == ops_view(s).push(x@),
{
    assert(ops_view(s.push(x)) =~= ops_view(s).push(x@));
}

/// A literal materializes as one typed constant.
fn do_lit(table: &SymbolTable, var: Symbol, value: Literal, out: &mut Vec<lir::Op>) -> (r: Result<
    (),
    TransError,
>)
    ensures
        match lower_lit(table.entries@, var, value) {
            Ok(c) => r is Ok && ops_view(final(out)@) == ops_view(old(out)@) + c,
            Err(e) => r == Err::<(), TransError>(e),
        },
{
    match table.get(var) {
        None => Err(TransError::UnresolvedSymbol),
        Some(d) => {
            let instr = match value {
                Literal::Bool(b) => lir::Op::ConstI32(d, if b { 1u32 } else { 0u32 }),
                Literal::Int(i) => lir::Op::ConstI32(d, #[verifier::truncate] (i as u32)),
                Literal::Float(bits) => lir::Op::ConstF64(d, bits),
            };
            proof {
                lemma_ops_view_push(out@, instr);
                assert(ops_view(out@).push(instr@) =~= ops_view(out@) + seq![instr@]);
            }
            out.push(instr);
            Ok(())
        },
    }
}

/// An alias emits one type-directed move, or nothing for a Unit value.
fn do_alias(
    table: &SymbolTable,
    var: Symbol,
    ty: &EbbTy,
    sym: Symbol,
    out: &mut Vec<lir::Op>,
) -> (r: Result<(), TransError>)
    ensures
        match lower_alias(table.entries@, var, *ty, sym) {
            Ok(c) => r is Ok && ops_view(final(out)@) == ops_view(old(out)@) + c,
            Err(e) => r == Err::<(), TransError>(e),
        },
{
    match ty {
        EbbTy::Unit => {
            proof {
                assert(ops_view(out@) =~= ops_view(out@) + Seq::<OpS>::empty());
            }
            Ok(())
        },
        _ => {
            match (table.get(var), table.get(sym)) {
                (Some(d), Some(s0)) => {
                    let instr = match ty {
                        EbbTy::Bool => lir::Op::MoveI32(d, s0),
                        EbbTy::Float => lir::Op::MoveF64(d, s0),
                        _ => lir::Op::MoveI64(d, s0),
                    };
                    proof {
                        lemma_ops_view_push(out@, instr);
                        assert(ops_view(out@).push(instr@) =~= ops_view(out@) + seq![instr@]);
                    }
                    out.push(instr);
                    Ok(())
                },
                _ => Err(TransError::UnresolvedSymbol),
            }
        },
    }
}

/// Overloaded arithmetic emits one typed instruction, or aborts on an
/// unsupported declared type.
fn do_arith(
    table: &SymbolTable,
    k: ArithKind,
    var: Symbol,
    ty: &EbbTy,
    l: Symbol,
    r: Symbol,
    out: &mut Vec<lir::Op>,
) -> (res: Result<(), TransError>)
    ensures
        match lower_arith(table.entries@, k, var, *ty, l, r) {
            Ok(c) => res is Ok && ops_view(final(out)@) == ops_view(old(out)@) + c,
            Err(e) => res == Err::<(), TransError>(e),
        },
{
    let float: bool = match ty {
        EbbTy::Int => false,
        EbbTy::Float => true,
        _ => {
            return Err(TransError::UnsupportedArith);
        },
    };
    match (table.get(var), table.get(l), table.get(r)) {
        (Some(d), Some(lr), Some(rr)) => {
            let instr = exec_arith_instr(k, float, d, lr, rr);
            proof {
                lemma_ops_view_push(out@, instr);
                assert(ops_view(out@).push(instr@) =~= ops_view(out@) + seq![instr@]);
            }
            out.push(instr);
            Ok(())
        },
        _ => Err(TransError::UnresolvedSymbol),
    }
}

/// Integer division emits the fixed 32-bit instruction.
fn do_divint(table: &SymbolTable, var: Symbol, l: Symbol, r: Symbol, out: &mut Vec<lir::Op>) -> (res:
    Result<(), TransError>)
    ensures
        match lower_divint(table.entries@, var, l, r) {
            Ok(c) => res is Ok && ops_view(final(out)@) == ops_view(old(out)@) + c,
            Err(e) => res == Err::<(), TransError>(e),
        },
{
    match (table.get(var), table.get(l), table.get(r)) {
        (Some(d), Some(lr), Some(rr)) => {
            let instr = lir::Op::DivI32(d, lr, rr);
            proof {
                lemma_ops_view_push(out@, instr);
                assert(ops_view(out@).push(instr@) =~= ops_view(out@) + seq![instr@]);
            }
            out.push(instr);
            Ok(())
        },
        _ => Err(TransError::UnresolvedSymbol),
    }
}

/// Float division emits the fixed 64-bit float instruction.
fn do_divfloat(table: &SymbolTable, var: Symbol, l: Symbol, r: Symbol, out: &mut Vec<lir::Op>) -> (res:
    Result<(), TransError>)
    ensures
        match lower_divfloat(table.entries@, var, l, r) {
            Ok(c) => res is Ok && ops_view(final(out)@) == ops_view(old(out)@) + c,
            Err(e) => res == Err::<(), TransError>(e),
        },
{
    match (table.get(var), table.get(l), table.get(r)) {
        (Some(d), Some(lr), Some(rr)) => {
            let instr = lir::Op::DivF64(d, lr, rr);
            proof {
                lemma_ops_view_push(out@, instr);
                assert(ops_view(out@).push(instr@) =~= ops_view(out@) + seq![instr@]);
            }
            out.push(instr);
            Ok(())
        },
        _ => Err(TransError::UnresolvedSymbol),
    }
}

/// Remainder emits the fixed 32-bit modulo instruction.
fn do_mod(table: &SymbolTable, var: Symbol, l: Symbol, r: Symbol, out: &mut Vec<lir::Op>) -> (res:
    Result<(), TransError>)
    ensures
        match lower_mod(table.entries@, var, l, r) {
            Ok(c) => res is Ok && ops_view(final(out)@) == ops_view(old(out)@) + c,
            Err(e) => res == Err::<(), TransError>(e),
        },
{
    match (table.get(var), table.get(l), table.get(r)) {
        (Some(d), Some(lr), Some(rr)) => {
            let instr = lir::Op::ModI32(d, lr, rr);
            proof {
                lemma_ops_view_push(out@, instr);
                assert(ops_view(out@).push(instr@) =~= ops_view(out@) + seq![instr@]);
            }
            out.push(instr);
            Ok(())
        },
        _ => Err(TransError::UnresolvedSymbol),
    }
}

/// A polymorphic comparison emits one typed instruction selected by the
/// operands' already-allocated machine types.
fn do_cmp(
    table: &SymbolTable,
    k: CmpKind,
    var: Symbol,
    l: Symbol,
    r: Symbol,
    out: &mut Vec<lir::Op>,
) -> (res: Result<(), TransError>)
    ensures
        match lower_cmp(table.entries@, k, var, l, r) {
            Ok(c) => res is Ok && ops_view(final(out)@) == ops_view(old(out)@) + c,
            Err(e) => res == Err::<(), TransError>(e),
        },
{
    match (table.get(l), table.get(r)) {
        (Some(lr), Some(rr)) => {
            let supported = lr.ty == rr.ty && (lr.ty == LTy::I32 || lr.ty == LTy::I64 || lr.ty
                == LTy::F32 || lr.ty == LTy::F64);
            if supported {
                match table.get(var) {
                    Some(d) => {
                        let instr = exec_cmp_instr(k, lr.ty, d, lr, rr);
                        proof {
                            lemma_ops_view_push(out@, instr);
                            assert(ops_view(out@).push(instr@) =~= ops_view(out@) + seq![instr@]);
                        }
                        out.push(instr);
                        Ok(())
                    },
                    None => Err(TransError::UnresolvedSymbol),
                }
            } else {
                assert(!cmp_supported(lr.ty, rr.ty));
                Err(TransError::UnsupportedOperands)
            }
        },
        _ => Err(TransError::UnresolvedSymbol),
    }
}

/// A return carries the value register unless the function returns Unit.
fn do_ret(table: &SymbolTable, value: &Option<Symbol>, out: &mut Vec<lir::Op>) -> (res: Result<
    (),
    TransError,
>)
    ensures
        match lower_ret(table.entries@, *value) {
            Ok(c) => res is Ok && ops_view(final(out)@) == ops_view(old(out)@) + c,
            Err(e) => res == Err::<(), TransError>(e),
        },
{
    let instr = match value {
        None => lir::Op::Ret(None),
        Some(v) => match table.get(*v) {
            None => {
                return Err(TransError::UnresolvedSymbol);
            },
            Some(r0) => lir::Op::Ret(Some(r0)),
        },
    };
    proof {
        lemma_ops_view_push(out@, instr);
        assert(ops_view(out@).push(instr@) =~= ops_view(out@) + seq![instr@]);
    }
    out.push(instr);
    Ok(())
}

/// The registers of a call's arguments, in order.
#[verifier::loop_isolation(false)]
fn collect_args(table: &SymbolTable, args: &Vec<Symbol>) -> (r: Result<Vec<Reg>, TransError>)
    ensures
        match args_regs_upto(table.entries@, args@, args@.len() as int) {
            Ok(rs) => r is Ok && r->Ok_0@ == rs,
            Err(e) => r == Err::<Vec<Reg>, TransError>(e),
        },
{
    let mut regs: Vec<Reg> = Vec::new();
    let mut i: usize = 0;
    while i < args.len()
        invariant
            i <= args@.len(),
            args_regs_upto(table.entries@, args@, i as int) == Ok::<Seq<Reg>, TransError>(regs@),
        decreases args@.len() - i,
    {
        match table.get(args[i]) {
            None => {
                proof {
                    lemma_args_regs_err(table.entries@, args@, i as int + 1, args@.len() as int);
                }
                return Err(TransError::UnresolvedSymbol);
            },
            Some(r0) => {
                regs.push(r0);
            },
        }
        i = i + 1;
    }
    Ok(regs)
}

/// A builtin call names the builtin and its argument registers.
fn do_builtin(
    table: &SymbolTable,
    var: Symbol,
    fun: Symbol,
    args: &Vec<Symbol>,
    out: &mut Vec<lir::Op>,
) -> (res: Result<(), TransError>)
    ensures
        match lower_builtin(table.entries@, var, fun, args@) {
            Ok(c) => res is Ok && ops_view(final(out)@) == ops_view(old(out)@) + c,
            Err(e) => res == Err::<(), TransError>(e),
        },
{
    let regs = match collect_args(table, args) {
        Err(e) => {
            return Err(e);
        },
        Ok(v) => v,
    };
    match table.get(var) {
        None => Err(TransError::UnresolvedSymbol),
        Some(d) => {
            let instr = lir::Op::BuiltinCall(d, fun, regs);
            proof {
                lemma_ops_view_push(out@, instr);
                assert(ops_view(out@).push(instr@) =~= ops_view(out@) + seq![instr@]);
            }
            out.push(instr);
            Ok(())
        },
    }
}

/// A call is indirect through the callee's register when the callee symbol is
/// bound, and direct by name otherwise.
fn do_call(
    table: &SymbolTable,
    var: Symbol,
    fun: Symbol,
    args: &Vec<Symbol>,
    out: &mut Vec<lir::Op>,
) -> (res: Result<(), TransError>)
    ensures
        match lower_call(table.entries@, var, fun, args@) {
            Ok(c) => res is Ok && ops_view(final(out)@) == ops_view(old(out)@) + c,
            Err(e) => res == Err::<(), TransError>(e),
        },
{
    let regs = match collect_args(table, args) {
        Err(e) => {
            return Err(e);
        },
        Ok(v) => v,
    };
    let d = match table.get(var) {
        None => {
            return Err(TransError::UnresolvedSymbol);
        },
        Some(d) => d,
    };
    let instr = match table.get(fun) {
        Some(fr) => lir::Op::ClosureCall(d, fr, regs),
        None => lir::Op::FunCall(d, fun, regs),
    };
    proof {
        lemma_ops_view_push(out@, instr);
        assert(ops_view(out@).push(instr@) =~= ops_view(out@) + seq![instr@]);
    }
    out.push(instr);
    Ok(())
}

/// A jump emits one type-directed move per non-Unit declared parameter of the
/// target, then the jump itself.
#[verifier::loop_isolation(false)]
fn do_jump(
    table: &SymbolTable,
    tt: &TargetTable,
    target: Symbol,
    args: &Vec<Symbol>,
    out: &mut Vec<lir::Op>,
) -> (res: Result<(), TransError>)
    ensures
        match lower_jump(table.entries@, tt_view(tt.entries@), target, args@) {
            Ok(c) => res is Ok && ops_view(final(out)@) == ops_view(old(out)@) + c,
            Err(e) => res == Err::<(), TransError>(e),
        },
{
    let params = match tt.get(target) {
        None => {
            return Err(TransError::MissingTarget);
        },
        Some(p) => p,
    };
    let n = if params.len() <= args.len() {
        params.len()
    } else {
        args.len()
    };
    let mut i: usize = 0;
    while i < n
        invariant
            i <= n,
            n <= params@.len(),
            n <= args@.len(),
            jump_moves_upto(table.entries@, params@, args@, i as int) is Ok,
            ops_view(out@) == ops_view(old(out)@) + jump_moves_upto(
                table.entries@,
                params@,
                args@,
                i as int,
            )->Ok_0,
        decreases n - i,
    {
        let p = params[i];
        match p.ty {
            LTy::Unit => {},
            _ => {
                match table.get(args[i]) {
                    None => {
                        proof {
                            lemma_jump_moves_err(
                                table.entries@,
                                params@,
                                args@,
                                i as int + 1,
                                if params@.len() <= args@.len() {
                                    params@.len() as int
                                } else {
                                    args@.len() as int
                                },
                            );
                        }
                        return Err(TransError::UnresolvedSymbol);
                    },
                    Some(ar) => {
                        let instr = exec_move_instr(p.ty, p, ar);
                        proof {
                            lemma_ops_view_push(out@, instr);
                            let pre = jump_moves_upto(table.entries@, params@, args@, i as int)->Ok_0;
                            assert((ops_view(old(out)@) + pre).push(instr@) =~= ops_view(old(out)@)
                                + pre.push(instr@));
                        }
                        out.push(instr);
                    },
                }
            },
        }
        i = i + 1;
    }
    let instr = lir::Op::Jump(Label(target));
    proof {
        lemma_ops_view_push(out@, instr);
        let moves = jump_moves_upto(table.entries@, params@, args@, n as int)->Ok_0;
        assert((ops_view(old(out)@) + moves).push(instr@) =~= ops_view(old(out)@) + moves.push(
            instr@,
        ));
    }
    out.push(instr);
    Ok(())
}

/// Tuple construction: one allocation of 8 bytes per declared field, then one
/// type-directed store per non-Unit field at its 8-byte-stride offset.
#[verifier::loop_isolation(false)]
fn do_tuple(
    table: &SymbolTable,
    var: Symbol,
    tys: &Vec<EbbTy>,
    tuple: &Vec<Symbol>,
    out: &mut Vec<lir::Op>,
) -> (res: Result<(), TransError>)
    ensures
        match lower_tuple(table.entries@, var, tys@, tuple@) {
            Ok(c) => res is Ok && ops_view(final(out)@) == ops_view(old(out)@) + c,
            Err(e) => res == Err::<(), TransError>(e),
        },
{
    let reg = match table.get(var) {
        None => {
            return Err(TransError::UnresolvedSymbol);
        },
        Some(r0) => r0,
    };
    if tys.len() > 536870911 {
        return Err(TransError::SizeOverflow);
    }
    assert(8 * tys@.len() <= u32::MAX as int);
    let size: u32 = (tys.len() * 8) as u32;
    let mut ltys: Vec<LTy> = Vec::new();
    let mut ti: usize = 0;
    while ti < tys.len()
        invariant
            ti <= tys@.len(),
            ltys@.len() == ti,
            forall|j: int| 0 <= j < ti ==> ltys@[j] == lty_of(tys@[j]),
        decreases tys@.len() - ti,
    {
        ltys.push(map_ty(&tys[ti]));
        ti = ti + 1;
    }
    proof {
        assert(ltys@ =~= ltys_of(tys@));
    }
    let ghost lts = ltys@;
    let instr = lir::Op::HeapAlloc(reg, size, ltys);
    proof {
        lemma_ops_view_push(out@, instr);
        assert(ops_view(out@).push(instr@) =~= ops_view(out@) + seq![instr@]);
    }
    out.push(instr);
    let ghost base_code = ops_view(out@);
    let n = if tuple.len() <= tys.len() {
        tuple.len()
    } else {
        tys.len()
    };
    let mut acc: u32 = 0;
    let mut i: usize = 0;
    while i < n
        invariant
            i <= n,
            n <= tuple@.len(),
            n <= tys@.len(),
            8 * tys@.len() <= u32::MAX as int,
            acc as int == 8 * (i as int),
            lts == ltys_of(tys@),
            base_code == ops_view(old(out)@) + seq![
                OpS::HeapAlloc(reg, (8 * tys@.len()) as u32, lts),
            ],
            tuple_stores_upto(table.entries@, reg, tuple@, lts, i as int) is Ok,
            ops_view(out@) == base_code + tuple_stores_upto(
                table.entries@,
                reg,
                tuple@,
                lts,
                i as int,
            )->Ok_0,
        decreases n - i,
    {
        let t = map_ty(&tys[i]);
        match t {
            LTy::Unit => {},
            _ => {
                match table.get(tuple[i]) {
                    None => {
                        proof {
                            lemma_tuple_stores_err(
                                table.entries@,
                                reg,
                                tuple@,
                                lts,
                                i as int + 1,
                                if tuple@.len() <= tys@.len() {
                                    tuple@.len() as int
                                } else {
                                    tys@.len() as int
                                },
                            );
                        }
                        return Err(TransError::UnresolvedSymbol);
                    },
                    Some(fr) => {
                        let s_instr = exec_store_instr(t, Addr { base: reg, offset: acc }, fr);
                        proof {
                            lemma_ops_view_push(out@, s_instr);
                            let pre = tuple_stores_upto(
                                table.entries@,
                                reg,
                                tuple@,
                                lts,
                                i as int,
                            )->Ok_0;
                            assert((base_code + pre).push(s_instr@) =~= base_code + pre.push(
                                s_instr@,
                            ));
                            assert(acc == (8 * (i as int)) as u32);
                        }
                        out.push(s_instr);
                    },
                }
            },
        }
        acc = acc + 8;
        i = i + 1;
    }
    proof {
        let stores = tuple_stores_upto(table.entries@, reg, tuple@, lts, n as int)->Ok_0;
        assert(ops_view(old(out)@) + seq![OpS::HeapAlloc(reg, (8 * tys@.len()) as u32, lts)]
            + stores =~= ops_view(old(out)@) + (seq![
            OpS::HeapAlloc(reg, (8 * tys@.len()) as u32, lts),
        ] + stores));
    }
    Ok(())
}

/// Closure construction: allocate pointer width plus the captures' real sizes,
/// store the function reference at offset 0, then each non-Unit capture at
/// successive 8-byte-strided offsets from 8.
#[verifier::loop_isolation(false)]
fn do_closure(
    table: &SymbolTable,
    var: Symbol,
    fun: Symbol,
    env: &Vec<(EbbTy, Symbol)>,
    out: &mut Vec<lir::Op>,
) -> (res: Result<(), TransError>)
    ensures
        match lower_closure(table.entries@, var, fun, env@) {
            Ok(c) => res is Ok && ops_view(final(out)@) == ops_view(old(out)@) + c,
            Err(e) => res == Err::<(), TransError>(e),
        },
{
    let reg = match table.get(var) {
        None => {
            return Err(TransError::UnresolvedSymbol);
        },
        Some(r0) => r0,
    };
    if env.len() > 536870910 {
        return Err(TransError::SizeOverflow);
    }
    assert(8 + 8 * env@.len() <= u32::MAX as int);
    let mut size: u32 = 8;
    let mut si: usize = 0;
    while si < env.len()
        invariant
            si <= env@.len(),
            8 + 8 * env@.len() <= u32::MAX as int,
            size as int == 8 + sum_sizes_upto(env@, si as int),
            size as int <= 8 + 8 * (si as int),
        decreases env@.len() - si,
    {
        let t = map_ty(&env[si].0);
        assert(lty_size(t) <= 8);
        size = size + t.size();
        si = si + 1;
    }
    let mut tys_v: Vec<LTy> = Vec::new();
    tys_v.push(LTy::FPtr);
    let mut tj: usize = 0;
    while tj < env.len()
        invariant
            tj <= env@.len(),
            tys_v@.len() == tj + 1,
            tys_v@[0] == LTy::FPtr,
            forall|k: int| 0 <= k < tj ==> tys_v@[k + 1] == lty_of(env@[k].0),
        decreases env@.len() - tj,
    {
        tys_v.push(map_ty(&env[tj].0));
        tj = tj + 1;
    }
    proof {
        assert(tys_v@ =~= seq![LTy::FPtr] + env_ltys(env@));
    }
    let ghost tseq = tys_v@;
    let alloc_instr = lir::Op::HeapAlloc(reg, size, tys_v);
    proof {
        lemma_ops_view_push(out@, alloc_instr);
        assert(ops_view(out@).push(alloc_instr@) =~= ops_view(out@) + seq![alloc_instr@]);
    }
    out.push(alloc_instr);
    let fn_instr = lir::Op::StoreFnPtr(Addr { base: reg, offset: 0 }, fun);
    proof {
        lemma_ops_view_push(out@, fn_instr);
        assert(ops_view(out@).push(fn_instr@) =~= ops_view(out@) + seq![fn_instr@]);
    }
    out.push(fn_instr);
    let ghost base_code = ops_view(out@);
    let ghost size_s = (8 + sum_sizes_upto(env@, env@.len() as int)) as u32;
    let mut acc: u32 = 8;
    let mut i: usize = 0;
    while i < env.len()
        invariant
            i <= env@.len(),
            8 + 8 * env@.len() <= u32::MAX as int,
            acc as int == 8 + 8 * (i as int),
            base_code == ops_view(old(out)@) + seq![
                OpS::HeapAlloc(reg, size_s, seq![LTy::FPtr] + env_ltys(env@)),
                OpS::StoreFnPtr(Addr { base: reg, offset: 0 }, fun),
            ],
            closure_stores_upto(table.entries@, reg, env@, i as int) is Ok,
            ops_view(out@) == base_code + closure_stores_upto(
                table.entries@,
                reg,
                env@,
                i as int,
            )->Ok_0,
        decreases env@.len() - i,
    {
        let t = map_ty(&env[i].0);
        match t {
            LTy::Unit => {},
            _ => {
                match table.get(env[i].1) {
                    None => {
                        proof {
                            lemma_closure_stores_err(
                                table.entries@,
                                reg,
                                env@,
                                i as int + 1,
                                env@.len() as int,
                            );
                        }
                        return Err(TransError::UnresolvedSymbol);
                    },
                    Some(vr) => {
                        let s_instr = exec_store_instr(t, Addr { base: reg, offset: acc }, vr);
                        proof {
                            lemma_ops_view_push(out@, s_instr);
                            let pre = closure_stores_upto(table.entries@, reg, env@, i as int)->Ok_0;
                            assert((base_code + pre).push(s_instr@) =~= base_code + pre.push(
                                s_instr@,
                            ));
                            assert(acc == (8 + 8 * (i as int)) as u32);
                        }
                        out.push(s_instr);
                    },
                }
            },
        }
        acc = acc + 8;
        i = i + 1;
    }
    proof {
        let stores = closure_stores_upto(table.entries@, reg, env@, env@.len() as int)->Ok_0;
        let pair = seq![
            OpS::HeapAlloc(reg, size_s, seq![LTy::FPtr] + env_ltys(env@)),
            OpS::StoreFnPtr(Addr { base: reg, offset: 0 }, fun),
        ];
        assert(ops_view(old(out)@) + pair + stores =~= ops_view(old(out)@) + (pair + stores));
    }
    Ok(())
}

/// Tuple projection emits one type-directed load, or nothing for a Unit
/// field.
fn do_proj(
    table: &SymbolTable,
    var: Symbol,
    ty: &EbbTy,
    index: u32,
    tuple: Symbol,
    out: &mut Vec<lir::Op>,
) -> (res: Result<(), TransError>)
    ensures
        match lower_proj(table.entries@, var, *ty, index, tuple) {
            Ok(c) => res is Ok && ops_view(final(out)@) == ops_view(old(out)@) + c,
            Err(e) => res == Err::<(), TransError>(e),
        },
{
    let t = map_ty(ty);
    match t {
        LTy::Unit => {
            proof {
                assert(ops_view(out@) =~= ops_view(out@) + Seq::<OpS>::empty());
            }
            Ok(())
        },
        _ => {
            match (table.get(var), table.get(tuple)) {
                (Some(d), Some(base)) => {
                    if index > 536870911u32 {
                        return Err(TransError::SizeOverflow);
                    }
                    let instr = exec_load_instr(t, d, Addr { base, offset: index * 8 });
                    proof {
                        lemma_ops_view_push(out@, instr);
                        assert(ops_view(out@).push(instr@) =~= ops_view(out@) + seq![instr@]);
                    }
                    out.push(instr);
                    Ok(())
                },
                _ => Err(TransError::UnresolvedSymbol),
            }
        },
    }
}

/// Stable insertion into a key-sorted clause list.
#[verifier::loop_isolation(false)]
fn insert_sorted(sorted: &mut Vec<(u32, Symbol)>, p: (u32, Symbol))
    ensures
        final(sorted)@ == insert_pair(old(sorted)@, p),
{
    let mut pos: usize = 0;
    while pos < sorted.len() && sorted[pos].0 <= p.0
        invariant
            pos <= sorted@.len(),
            forall|k: int| 0 <= k < pos ==> sorted@[k].0 <= p.0,
        decreases sorted@.len() - pos,
    {
        pos = pos + 1;
    }
    let mut result: Vec<(u32, Symbol)> = Vec::new();
    let mut a: usize = 0;
    while a < pos
        invariant
            a <= pos,
            result@ == sorted@.take(a as int),
        decreases pos - a,
    {
        proof {
            assert(sorted@.take(a as int + 1) =~= sorted@.take(a as int).push(sorted@[a as int]));
        }
        result.push(sorted[a]);
        a = a + 1;
    }
    result.push(p);
    let mut b: usize = pos;
    while b < sorted.len()
        invariant
            pos <= b <= sorted@.len(),
            result@ == sorted@.take(pos as int) + seq![p] + sorted@.subrange(pos as int, b as int),
        decreases sorted@.len() - b,
    {
        proof {
            assert((sorted@.take(pos as int) + seq![p] + sorted@.subrange(
                pos as int,
                b as int,
            )).push(sorted@[b as int]) =~= sorted@.take(pos as int) + seq![p] + sorted@.subrange(
                pos as int,
                b as int + 1,
            ));
        }
        result.push(sorted[b]);
        b = b + 1;
    }
    proof {
        assert(result@ == sorted@.take(pos as int) + seq![p] + sorted@.subrange(
            pos as int,
            sorted@.len() as int,
        ));
        assert(sorted@.subrange(pos as int, sorted@.len() as int) =~= sorted@.skip(pos as int));
        lemma_insert_pair_at(sorted@, p, pos as int);
    }
    *sorted = result;
}

/// A multi-way branch: sort the clauses, move the discriminant into a default
/// target's single parameter, then emit a dense jump table or a linear
/// compare-and-jump chain over two fresh scratch registers.
#[verifier::loop_isolation(false)]
fn do_branch(
    table: &SymbolTable,
    tt: &TargetTable,
    ra: &mut RegAlloc,
    cond: Symbol,
    clauses: &Vec<(u32, Symbol, Vec<Symbol>)>,
    default: &Option<(Symbol, Vec<Symbol>)>,
    out: &mut Vec<lir::Op>,
) -> (res: Result<(), TransError>)
    ensures
        match lower_branch(
            table.entries@,
            tt_view(tt.entries@),
            old(ra).regs@,
            cond,
            clauses@,
            *default,
        ) {
            Ok(d) => res is Ok && ops_view(final(out)@) == ops_view(old(out)@) + d.0
                && final(ra).regs@ == old(ra).regs@ + d.1,
            Err(e) => res == Err::<(), TransError>(e),
        },
{
    let mut pairs: Vec<(u32, Symbol)> = Vec::new();
    let mut ci: usize = 0;
    while ci < clauses.len()
        invariant
            ci <= clauses@.len(),
            pairs@.len() == ci,
            forall|k: int| 0 <= k < ci ==> pairs@[k] == (clauses@[k].0, clauses@[k].1),
        decreases clauses@.len() - ci,
    {
        pairs.push((clauses[ci].0, clauses[ci].1));
        ci = ci + 1;
    }
    proof {
        assert(pairs@ =~= clause_pairs(clauses@));
    }
    let mut sorted: Vec<(u32, Symbol)> = Vec::new();
    let mut si: usize = 0;
    while si < pairs.len()
        invariant
            si <= pairs@.len(),
            sorted@ == sort_pairs_upto(pairs@, si as int),
        decreases pairs@.len() - si,
    {
        insert_sorted(&mut sorted, pairs[si]);
        si = si + 1;
    }
    let ghost sortedg = sorted_clauses(clauses@);
    proof {
        assert(sorted@ == sortedg);
    }
    let dlabel: Option<Label> = match default {
        None => None,
        Some(d) => {
            let label = d.0;
            let params = match tt.get(label) {
                None => {
                    return Err(TransError::MissingTarget);
                },
                Some(p) => p,
            };
            if params.len() != 1 {
                return Err(TransError::DefaultArity);
            }
            let p = params[0];
            match p.ty {
                LTy::Unit => {},
                _ => {
                    match table.get(cond) {
                        None => {
                            return Err(TransError::UnresolvedSymbol);
                        },
                        Some(cr0) => {
                            let m_instr = exec_move_instr(p.ty, p, cr0);
                            proof {
                                lemma_ops_view_push(out@, m_instr);
                                assert(ops_view(out@).push(m_instr@) =~= ops_view(out@) + seq![
                                    m_instr@,
                                ]);
                            }
                            out.push(m_instr);
                        },
                    }
                },
            }
            Some(Label(label))
        },
    };
    let ghost dmoves = ops_view(out@).skip(ops_view(old(out)@).len() as int);
    proof {
        assert(ops_view(out@) =~= ops_view(old(out)@) + dmoves);
    }
    let cr = match table.get(cond) {
        None => {
            return Err(TransError::UnresolvedSymbol);
        },
        Some(c0) => c0,
    };
    let mut dense: bool = sorted.len() > 0;
    let mut di: usize = 0;
    while di < sorted.len()
        invariant
            di <= sorted@.len(),
            dense == (sorted@.len() > 0 && (forall|k: int|
                0 <= k < di ==> sorted@[k].0 as int == k)),
        decreases sorted@.len() - di,
    {
        dense = dense && (sorted[di].0 as usize == di);
        di = di + 1;
    }
    proof {
        assert(dense == is_dense(sortedg));
    }
    if dense {
        let mut labels: Vec<Label> = Vec::new();
        let mut li: usize = 0;
        while li < sorted.len()
            invariant
                li <= sorted@.len(),
                labels@.len() == li,
                forall|k: int| 0 <= k < li ==> labels@[k] == Label(sorted@[k].1),
            decreases sorted@.len() - li,
        {
            labels.push(Label(sorted[li].1));
            li = li + 1;
        }
        proof {
            assert(labels@ =~= table_labels(sortedg));
        }
        let jt = lir::Op::JumpTableI32(cr, labels, dlabel);
        proof {
            lemma_ops_view_push(out@, jt);
            assert((ops_view(old(out)@) + dmoves).push(jt@) =~= ops_view(old(out)@) + dmoves.push(
                jt@,
            ));
            assert(old(ra).regs@ + Seq::<LTy>::empty() =~= old(ra).regs@);
        }
        out.push(jt);
        Ok(())
    } else {
        if cr.ty != LTy::I32 {
            return Err(TransError::BranchCondWidth);
        }
        let boolean = ra.allocate(LTy::I32);
        let constant = ra.allocate(LTy::I32);
        let ghost base_code = ops_view(out@);
        let mut ki: usize = 0;
        while ki < sorted.len()
            invariant
                ki <= sorted@.len(),
                ops_view(out@) == base_code + chain_upto(cr, boolean, constant, sortedg, ki as int),
            decreases sorted@.len() - ki,
        {
            let c1 = lir::Op::ConstI32(constant, sorted[ki].0);
            let c2 = lir::Op::EqI32(boolean, cr, constant);
            let c3 = lir::Op::JumpIfI32(boolean, Label(sorted[ki].1));
            proof {
                lemma_ops_view_push(out@, c1);
            }
            out.push(c1);
            proof {
                lemma_ops_view_push(out@, c2);
            }
            out.push(c2);
            proof {
                lemma_ops_view_push(out@, c3);
            }
            out.push(c3);
            proof {
                assert(ops_view(out@) =~= base_code + chain_upto(
                    cr,
                    boolean,
                    constant,
                    sortedg,
                    ki as int + 1,
                ));
            }
            ki = ki + 1;
        }
        match dlabel {
            None => {},
            Some(l) => {
                let j_instr = lir::Op::Jump(l);
                proof {
                    lemma_ops_view_push(out@, j_instr);
                }
                out.push(j_instr);
            },
        }
        proof {
            let chain = chain_upto(cr, boolean, constant, sortedg, sortedg.len() as int);
            let tail: Seq<OpS> = match dlabel {
                None => Seq::<OpS>::empty(),
                Some(l) => seq![OpS::Jump(l)],
            };
            assert(ops_view(out@) =~= ops_view(old(out)@) + (dmoves + chain + tail));
            assert(ra.regs@ =~= old(ra).regs@ + seq![LTy::I32, LTy::I32]);
        }
        Ok(())
    }
}

/// Registers one operation's destination, following the destination typing
/// rule.
fn intern_op_exec(tbl: &mut SymbolTable, ra: &mut RegAlloc, op: &Op)
    ensures
        ({
            let st = intern_op(AllocState { tbl: old(tbl).entries@, regs: old(ra).regs@ }, *op);
            final(tbl).entries@ == st.tbl && final(ra).regs@ == st.regs
        }),
{
    let dest: Option<(Symbol, LTy)> = match op {
        Op::Lit { var, ty, .. } => Some((*var, map_ty(ty))),
        Op::Alias { var, ty, .. } => Some((*var, map_ty(ty))),
        Op::Add { var, ty, .. } => Some((*var, map_ty(ty))),
        Op::Sub { var, ty, .. } => Some((*var, map_ty(ty))),
        Op::Mul { var, ty, .. } => Some((*var, map_ty(ty))),
        Op::DivInt { var, ty, .. } => Some((*var, map_ty(ty))),
        Op::DivFloat { var, ty, .. } => Some((*var, map_ty(ty))),
        Op::Mod { var, ty, .. } => Some((*var, map_ty(ty))),
        Op::Eq { var, ty, .. } => Some((*var, map_ty(ty))),
        Op::Neq { var, ty, .. } => Some((*var, map_ty(ty))),
        Op::Gt { var, ty, .. } => Some((*var, map_ty(ty))),
        Op::Ge { var, ty, .. } => Some((*var, map_ty(ty))),
        Op::Lt { var, ty, .. } => Some((*var, map_ty(ty))),
        Op::Le { var, ty, .. } => Some((*var, map_ty(ty))),
        Op::Proj { var, ty, .. } => Some((*var, map_ty(ty))),
        Op::BuiltinCall { var, ty, .. } => Some((*var, map_ty(ty))),
        Op::Call { var, ty, .. } => Some((*var, map_ty(ty))),
        Op::Tuple { var, .. } => Some((*var, LTy::Ptr)),
        Op::Closure { var, .. } => Some((*var, LTy::Ptr)),
        Op::Branch { .. } => None,
        Op::Jump { .. } => None,
        Op::Ret { .. } => None,
    };
    proof {
        assert(dest == op_dest(*op));
    }
    match dest {
        Some(d) => tbl.intern(ra, d.0, d.1),
        None => {},
    }
}

/// Lowers one operation into the current block, allocating scratch registers
/// where the operation's lowering does.
fn lower_op_exec(
    table: &SymbolTable,
    tt: &TargetTable,
    ra: &mut RegAlloc,
    op: &Op,
    out: &mut Vec<lir::Op>,
) -> (r: Result<(), TransError>)
    ensures
        match lower_op(table.entries@, tt_view(tt.entries@), old(ra).regs@, *op) {
            Ok(d) => r is Ok && ops_view(final(out)@) == ops_view(old(out)@) + d.0
                && final(ra).regs@ == old(ra).regs@ + d.1,
            Err(e) => r == Err::<(), TransError>(e),
        },
{
    proof {
        assert(old(ra).regs@ + Seq::<LTy>::empty() =~= old(ra).regs@);
    }
    match op {
        Op::Lit { var, value, .. } => do_lit(table, *var, *value, out),
        Op::Alias { var, ty, sym } => do_alias(table, *var, ty, *sym, out),
        Op::Add { var, ty, l, r } => do_arith(table, ArithKind::Add, *var, ty, *l, *r, out),
        Op::Sub { var, ty, l, r } => do_arith(table, ArithKind::Sub, *var, ty, *l, *r, out),
        Op::Mul { var, ty, l, r } => do_arith(table, ArithKind::Mul, *var, ty, *l, *r, out),
        Op::DivInt { var, l, r, .. } => do_divint(table, *var, *l, *r, out),
        Op::DivFloat { var, l, r, .. } => do_divfloat(table, *var, *l, *r, out),
        Op::Mod { var, l, r, .. } => do_mod(table, *var, *l, *r, out),
        Op::Eq { var, l, r, .. } => do_cmp(table, CmpKind::Eq, *var, *l, *r, out),
        Op::Neq { var, l, r, .. } => do_cmp(table, CmpKind::Neq, *var, *l, *r, out),
        Op::Gt { var, l, r, .. } => do_cmp(table, CmpKind::Gt, *var, *l, *r, out),
        Op::Ge { var, l, r, .. } => do_cmp(table, CmpKind::Ge, *var, *l, *r, out),
        Op::Lt { var, l, r, .. } => do_cmp(table, CmpKind::Lt, *var, *l, *r, out),
        Op::Le { var, l, r, .. } => do_cmp(table, CmpKind::Le, *var, *l, *r, out),
        Op::Tuple { var, tys, tuple } => do_tuple(table, *var, tys, tuple, out),
        Op::Proj { var, ty, index, tuple } => do_proj(table, *var, ty, *index, *tuple, out),
        Op::Closure { var, fun, env } => do_closure(table, *var, *fun, env, out),
        Op::BuiltinCall { var, fun, args, .. } => do_builtin(table, *var, *fun, args, out),
        Op::Call { var, fun, args, .. } => do_call(table, *var, *fun, args, out),
        Op::Branch { cond, clauses, default } => do_branch(
            table,
            tt,
            ra,
            *cond,
            clauses,
            default,
            out,
        ),
        Op::Jump { target, args } => do_jump(table, tt, *target, args, out),
        Op::Ret { value } => do_ret(table, value, out),
    }
}

/// The lowering pass from the typed block IR to the register IR.
pub struct MIR2LIR;

impl MIR2LIR {
    /// A fresh instance of the pass. The pass itself holds no state: all
    /// working tables live per translated function.
    pub fn new() -> (r: Self)
        ensures
            r == MIR2LIR,
    {
        MIR2LIR
    }

    /// The type mapper: the machine type of a source-level type.
    pub fn ebbty_to_lty(&self, ty: &EbbTy) -> (r: LTy)
        ensures
            r == lty_of(*ty),
    {
        map_ty(ty)
    }

    /// The registration pass: walks the entry block's parameters, then every
    /// block's parameters and destinations, binding each distinct symbol to
    /// one fresh typed register.
    #[verifier::loop_isolation(false)]
    pub fn make_symbol_table(&self, body: &Vec<mir::EBB>, ra: &mut RegAlloc) -> (t: SymbolTable)
        requires
            body@.len() > 0,
        ensures
            ({
                let st = build_symbol_state(
                    AllocState { tbl: Seq::empty(), regs: old(ra).regs@ },
                    body@,
                );
                t.entries@ == st.tbl && final(ra).regs@ == st.regs
            }),
    {
        let mut table = SymbolTable::new();
        let ghost init = AllocState { tbl: Seq::<(Symbol, Reg)>::empty(), regs: old(ra).regs@ };
        let entry = &body[0];
        let mut pi: usize = 0;
        while pi < entry.params.len()
            invariant
                pi <= entry.params@.len(),
                ({
                    let st = intern_params_upto(init, body@[0].params@, pi as int);
                    table.entries@ == st.tbl && ra.regs@ == st.regs
                }),
            decreases entry.params@.len() - pi,
        {
            let p = &entry.params[pi];
            table.intern(ra, p.1, map_ty(&p.0));
            pi = pi + 1;
        }
        let ghost st0 = intern_params(init, body@[0].params@);
        let mut bi: usize = 0;
        while bi < body.len()
            invariant
                bi <= body@.len(),
                ({
                    let st = intern_blocks_upto(st0, body@, bi as int);
                    table.entries@ == st.tbl && ra.regs@ == st.regs
                }),
            decreases body@.len() - bi,
        {
            let ebb = &body[bi];
            let ghost stb = AllocState { tbl: table.entries@, regs: ra.regs@ };
            let mut pj: usize = 0;
            while pj < ebb.params.len()
                invariant
                    pj <= ebb.params@.len(),
                    ({
                        let st = intern_params_upto(stb, body@[bi as int].params@, pj as int);
                        table.entries@ == st.tbl && ra.regs@ == st.regs
                    }),
                decreases ebb.params@.len() - pj,
            {
                let p = &ebb.params[pj];
                table.intern(ra, p.1, map_ty(&p.0));
                pj = pj + 1;
            }
            let ghost sto = intern_params(stb, body@[bi as int].params@);
            let mut oj: usize = 0;
            while oj < ebb.body.len()
                invariant
                    oj <= ebb.body@.len(),
                    ({
                        let st = intern_ops_upto(sto, body@[bi as int].body@, oj as int);
                        table.entries@ == st.tbl && ra.regs@ == st.regs
                    }),
                decreases ebb.body@.len() - oj,
            {
                intern_op_exec(&mut table, ra, &ebb.body[oj]);
                oj = oj + 1;
            }
            bi = bi + 1;
        }
        table
    }

    /// The target table: for each block, the already-allocated registers of
    /// its declared parameters, in declaration order.
    #[verifier::loop_isolation(false)]
    pub fn make_target_table(&self, body: &Vec<mir::EBB>, symbol_table: &SymbolTable) -> (tt:
        TargetTable)
        requires
            forall|bi: int, pi: int|
                0 <= bi < body@.len() && 0 <= pi < body@[bi].params@.len() ==> st_lookup(
                    symbol_table.entries@,
                    body@[bi].params@[pi].1,
                ) is Some,
        ensures
            tt_view(tt.entries@) == target_table_of(symbol_table.entries@, body@),
    {
        let mut entries: Vec<(Symbol, Vec<Reg>)> = Vec::new();
        let mut bi: usize = 0;
        while bi < body.len()
            invariant
                bi <= body@.len(),
                tt_view(entries@) == tt_upto(symbol_table.entries@, body@, bi as int),
            decreases body@.len() - bi,
        {
            let ebb = &body[bi];
            let mut regs_v: Vec<Reg> = Vec::new();
            let mut pi: usize = 0;
            while pi < ebb.params.len()
                invariant
                    pi <= ebb.params@.len(),
                    regs_v@.len() == pi,
                    forall|j: int|
                        0 <= j < pi ==> regs_v@[j] == st_lookup(
                            symbol_table.entries@,
                            ebb.params@[j].1,
                        )->Some_0,
                decreases ebb.params@.len() - pi,
            {
                proof {
                    assert(st_lookup(symbol_table.entries@, body@[bi as int].params@[pi as int].1)
                        is Some);
                }
                match symbol_table.get(ebb.params[pi].1) {
                    Some(r0) => {
                        regs_v.push(r0);
                    },
                    None => {
                        proof {
                            assert(false);
                        }
                    },
                }
                pi = pi + 1;
            }
            proof {
                assert(regs_v@ =~= params_regs(symbol_table.entries@, body@[bi as int].params@));
                assert(tt_view(entries@.push((ebb.name, regs_v))) =~= tt_view(entries@).push(
                    (ebb.name, regs_v@),
                ));
            }
            entries.push((ebb.name, regs_v));
            bi = bi + 1;
        }
        TargetTable { entries }
    }

    /// Translates one function: the two-phase contract (declare all symbols,
    /// then translate every block in order), assembling the function record
    /// from the allocator's final register list.
    #[verifier::loop_isolation(false)]
    pub fn trans_function(&self, f: &mir::Function) -> (r: Result<lir::Function, TransError>)
        ensures
            match r {
                Ok(g) => lower_function_spec(*f) == Ok::<FunctionS, TransError>(g@),
                Err(e) => lower_function_spec(*f) == Err::<FunctionS, TransError>(e),
            },
    {
        if f.body.len() == 0 {
            return Err(TransError::EmptyBody);
        }
        let nparams = f.body[0].params.len();
        let ret_ty = self.ebbty_to_lty(&f.body_ty);
        let mut ra = RegAlloc::new();
        let symbol_table = self.make_symbol_table(&f.body, &mut ra);
        proof {
            let init = AllocState { tbl: Seq::<(Symbol, Reg)>::empty(), regs: Seq::<LTy>::empty() };
            assert(build_symbol_state(init, f.body@) == symbol_state_of(f.body@));
            assert forall|bi: int, pi: int|
                0 <= bi < f.body@.len() && 0 <= pi < f.body@[bi].params@.len() implies st_lookup(
                symbol_table.entries@,
                f.body@[bi].params@[pi].1,
            ) is Some by {
                lemma_all_params_present(init, f.body@, bi, pi);
            }
        }
        let target_table = self.make_target_table(&f.body, &symbol_table);
        let ghost stbl = symbol_table.entries@;
        let ghost sttt = tt_view(target_table.entries@);
        let ghost regs0 = ra.regs@;
        let mut blocks: Vec<lir::Block> = Vec::new();
        proof {
            assert(blocks_view(blocks@) =~= Seq::<BlockS>::empty());
        }
        let mut bi: usize = 0;
        while bi < f.body.len()
            invariant
                bi <= f.body@.len(),
                lower_blocks_upto(stbl, sttt, regs0, f.body@, bi as int) == Ok::<
                    (Seq<BlockS>, Seq<LTy>),
                    TransError,
                >((blocks_view(blocks@), ra.regs@)),
            decreases f.body@.len() - bi,
        {
            let ebb = &f.body[bi];
            let mut ops_v: Vec<lir::Op> = Vec::new();
            proof {
                assert(ops_view(ops_v@) =~= Seq::<OpS>::empty());
            }
            let ghost regs_b = ra.regs@;
            let mut oi: usize = 0;
            while oi < ebb.body.len()
                invariant
                    oi <= ebb.body@.len(),
                    lower_ops_upto(
                        stbl,
                        sttt,
                        Seq::<OpS>::empty(),
                        regs_b,
                        f.body@[bi as int].body@,
                        oi as int,
                    ) == Ok::<(Seq<OpS>, Seq<LTy>), TransError>((ops_view(ops_v@), ra.regs@)),
                decreases ebb.body@.len() - oi,
            {
                match lower_op_exec(&symbol_table, &target_table, &mut ra, &ebb.body[oi], &mut ops_v) {
                    Ok(_) => {},
                    Err(e) => {
                        proof {
                            lemma_lower_ops_err(
                                stbl,
                                sttt,
                                Seq::<OpS>::empty(),
                                regs_b,
                                f.body@[bi as int].body@,
                                oi as int + 1,
                                f.body@[bi as int].body@.len() as int,
                            );
                            lemma_lower_blocks_err(
                                stbl,
                                sttt,
                                regs0,
                                f.body@,
                                bi as int + 1,
                                f.body@.len() as int,
                            );
                        }
                        return Err(e);
                    },
                }
                oi = oi + 1;
            }
            let blk = lir::Block { name: Label(ebb.name), body: ops_v };
            proof {
                assert(blocks_view(blocks@.push(blk)) =~= blocks_view(blocks@).push(blk@));
            }
            blocks.push(blk);
            bi = bi + 1;
        }
        let regs_list = ra.into_regs();
        let result = lir::Function { name: f.name, nparams, regs: regs_list, ret_ty, body: blocks };
        Ok(result)
    }

    /// Translates a whole program, function by function; the first failing
    /// function aborts the whole translation.
    #[verifier::loop_isolation(false)]
    pub fn trans_mir(&self, mir: mir::MIR) -> (r: Result<lir::LIR, TransError>)
        ensures
            match r {
                Ok(l) => lower_mir_spec(mir) == Ok::<Seq<FunctionS>, TransError>(l@),
                Err(e) => lower_mir_spec(mir) == Err::<Seq<FunctionS>, TransError>(e),
            },
    {
        let mut funcs: Vec<lir::Function> = Vec::new();
        proof {
            assert(funcs_view(funcs@) =~= Seq::<FunctionS>::empty());
        }
        let mut i: usize = 0;
        while i < mir.0.len()
            invariant
                i <= mir.0@.len(),
                lower_mir_upto(mir.0@, i as int) == Ok::<Seq<FunctionS>, TransError>(
                    funcs_view(funcs@),
                ),
            decreases mir.0@.len() - i,
        {
            match self.trans_function(&mir.0[i]) {
                Ok(g) => {
                    proof {
                        assert(funcs_view(funcs@.push(g)) =~= funcs_view(funcs@).push(g@));
                    }
                    funcs.push(g);
                },
                Err(e) => {
                    proof {
                        lemma_lower_mir_err(mir.0@, i as int + 1, mir.0@.len() as int);
                    }
                    return Err(e);
                },
            }
            i = i + 1;
        }
        Ok(lir::LIR(funcs))
    }
}

} // verus!
