//! Laws of the translation, each proved from the specification functions that
//! the translator's contracts use.

use vstd::prelude::*;
use crate::lir::{FunctionS, LTy, OpS, Reg};
use crate::mir;
use crate::mir::{EbbTy, Op, Symbol};
use crate::lowering::{
    TransError, args_regs_upto, closure_stores_upto, cmp_supported, jump_moves_upto,
    lemma_args_regs_err, lemma_closure_stores_err, lemma_jump_moves_err, lemma_lower_blocks_err,
    lemma_lower_ops_err, lemma_tuple_stores_err, chain_upto, is_dense, lower_block,
    lower_blocks_upto, lower_function_spec, lower_op, lower_ops_upto, ltys_of, sorted_clauses,
    table_labels, tuple_stores_upto,
};
use crate::table::{
    AllocState, distinct_params, intern_params, lemma_entry_params_regs,
    lemma_intern_blocks_props, lty_of, st_lookup, symbol_state_of, target_table_of, tt_lookup,
};

verus! {

// ---------------------------------------------------------------------------
// Entry parameters own registers 0..nparams-1.
// ---------------------------------------------------------------------------

/// A prefix stays a prefix of a longer sequence.
proof fn lemma_prefix_append(x: Seq<LTy>, y: Seq<LTy>, z: Seq<LTy>)
    requires
        x.is_prefix_of(y),
    ensures
        x.is_prefix_of(y + z),
{
    assert((y + z).subrange(0, x.len() as int) =~= y.subrange(0, x.len() as int));
}

/// Lowering a block's operations only appends to the register list.
proof fn lemma_lower_ops_regs_prefix(
    tbl: Seq<(Symbol, Reg)>,
    tt: Seq<(Symbol, Seq<Reg>)>,
    code0: Seq<OpS>,
    regs0: Seq<LTy>,
    ops: Seq<Op>,
    n: int,
)
    requires
        lower_ops_upto(tbl, tt, code0, regs0, ops, n) is Ok,
    ensures
        regs0.is_prefix_of(lower_ops_upto(tbl, tt, code0, regs0, ops, n)->Ok_0.1),
    decreases n,
{
    if n <= 0 {
        assert(regs0.is_prefix_of(regs0));
    } else {
        if lower_ops_upto(tbl, tt, code0, regs0, ops, n - 1) is Err {
            lemma_lower_ops_err(tbl, tt, code0, regs0, ops, n - 1, n);
        }
        lemma_lower_ops_regs_prefix(tbl, tt, code0, regs0, ops, n - 1);
        let prev = lower_ops_upto(tbl, tt, code0, regs0, ops, n - 1)->Ok_0;
        lemma_prefix_append(regs0, prev.1, lower_op(tbl, tt, prev.1, ops[n - 1])->Ok_0.1);
    }
}

/// Lowering blocks only appends to the register list.
proof fn lemma_lower_blocks_regs_prefix(
    tbl: Seq<(Symbol, Reg)>,
    tt: Seq<(Symbol, Seq<Reg>)>,
    regs0: Seq<LTy>,
    body: Seq<mir::EBB>,
    n: int,
)
    requires
        lower_blocks_upto(tbl, tt, regs0, body, n) is Ok,
    ensures
        regs0.is_prefix_of(lower_blocks_upto(tbl, tt, regs0, body, n)->Ok_0.1),
    decreases n,
{
    if n <= 0 {
        assert(regs0.is_prefix_of(regs0));
    } else {
        if lower_blocks_upto(tbl, tt, regs0, body, n - 1) is Err {
            lemma_lower_blocks_err(tbl, tt, regs0, body, n - 1, n);
        }
        lemma_lower_blocks_regs_prefix(tbl, tt, regs0, body, n - 1);
        let prev = lower_blocks_upto(tbl, tt, regs0, body, n - 1)->Ok_0;
        let ebb = body[n - 1];
        lemma_lower_ops_regs_prefix(
            tbl,
            tt,
            Seq::<OpS>::empty(),
            prev.1,
            ebb.body@,
            ebb.body@.len() as int,
        );
        let b = lower_block(tbl, tt, prev.1, ebb)->Ok_0;
        assert(prev.1.is_prefix_of(b.1));
        assert(regs0.is_prefix_of(b.1)) by {
            assert(forall|i: int| 0 <= i < regs0.len() ==> regs0[i] == prev.1[i]);
            assert(forall|i: int| 0 <= i < prev.1.len() ==> prev.1[i] == b.1[i]);
            assert(regs0 =~= b.1.subrange(0, regs0.len() as int));
        }
    }
}

/// A successfully lowered function's parameter count is its entry block's
/// parameter count, and registers `0..nparams-1` carry exactly the entry
/// block's parameter types, mapped by the type mapper, in declared order —
/// provided the entry block binds each parameter symbol once.
pub proof fn lemma_entry_registers(f: mir::Function, g: FunctionS)
    requires
        lower_function_spec(f) == Ok::<FunctionS, TransError>(g),
        f.body@.len() > 0,
        distinct_params(f.body@[0].params@),
    ensures
        g.nparams == f.body@[0].params@.len(),
        g.regs.len() >= g.nparams,
        forall|i: int| 0 <= i < g.nparams ==> g.regs[i] == lty_of(f.body@[0].params@[i].0),
{
    let params = f.body@[0].params@;
    let empty_st = AllocState { tbl: Seq::empty(), regs: Seq::empty() };
    lemma_entry_params_regs(params, params.len() as int);
    let st0 = intern_params(empty_st, params);
    lemma_intern_blocks_props(st0, f.body@, f.body@.len() as int);
    let ss = symbol_state_of(f.body@);
    assert(st0.regs.is_prefix_of(ss.regs));
    let tt = target_table_of(ss.tbl, f.body@);
    lemma_lower_blocks_regs_prefix(ss.tbl, tt, ss.regs, f.body@, f.body@.len() as int);
    let res = lower_blocks_upto(ss.tbl, tt, ss.regs, f.body@, f.body@.len() as int)->Ok_0;
    assert(ss.regs.is_prefix_of(res.1));
    assert forall|i: int| 0 <= i < g.nparams implies g.regs[i] == lty_of(
        f.body@[0].params@[i].0,
    ) by {
        assert(st0.regs[i] == lty_of(params[i].0));
        assert(ss.regs[i] == st0.regs[i]);
        assert(res.1[i] == ss.regs[i]);
    }
}

// ---------------------------------------------------------------------------
// Every symbol the lowering reads is bound in the symbol table.
// ---------------------------------------------------------------------------

/// Every symbol that lowering the given operation looks up is bound in the
/// table: operands of arithmetic, comparison and moves; non-Unit tuple fields
/// and captures; call arguments; the branch discriminant; the returned value.
pub open spec fn op_reads_resolved(
    tbl: Seq<(Symbol, Reg)>,
    tt: Seq<(Symbol, Seq<Reg>)>,
    op: Op,
) -> bool {
    match op {
        Op::Lit { var, .. } => st_lookup(tbl, var) is Some,
        Op::Alias { var, ty, sym } => !(ty is Unit) ==> st_lookup(tbl, var) is Some && st_lookup(
            tbl,
            sym,
        ) is Some,
        Op::Add { var, l, r, .. } => reads3(tbl, var, l, r),
        Op::Sub { var, l, r, .. } => reads3(tbl, var, l, r),
        Op::Mul { var, l, r, .. } => reads3(tbl, var, l, r),
        Op::DivInt { var, l, r, .. } => reads3(tbl, var, l, r),
        Op::DivFloat { var, l, r, .. } => reads3(tbl, var, l, r),
        Op::Mod { var, l, r, .. } => reads3(tbl, var, l, r),
        Op::Eq { var, l, r, .. } => reads3(tbl, var, l, r),
        Op::Neq { var, l, r, .. } => reads3(tbl, var, l, r),
        Op::Gt { var, l, r, .. } => reads3(tbl, var, l, r),
        Op::Ge { var, l, r, .. } => reads3(tbl, var, l, r),
        Op::Lt { var, l, r, .. } => reads3(tbl, var, l, r),
        Op::Le { var, l, r, .. } => reads3(tbl, var, l, r),
        Op::Tuple { var, tys, tuple } => st_lookup(tbl, var) is Some && (forall|i: int|
            0 <= i < min2(tuple@.len() as int, tys@.len() as int) && lty_of(tys@[i]) != LTy::Unit
                ==> st_lookup(tbl, tuple@[i]) is Some),
        Op::Proj { var, ty, tuple, .. } => lty_of(ty) != LTy::Unit ==> st_lookup(tbl, var) is Some
            && st_lookup(tbl, tuple) is Some,
        Op::Closure { var, env, .. } => st_lookup(tbl, var) is Some && (forall|i: int|
            0 <= i < env@.len() && lty_of(env@[i].0) != LTy::Unit ==> st_lookup(
                tbl,
                env@[i].1,
            ) is Some),
        Op::BuiltinCall { var, args, .. } => st_lookup(tbl, var) is Some && (forall|i: int|
            0 <= i < args@.len() ==> st_lookup(tbl, args@[i]) is Some),
        Op::Call { var, args, .. } => st_lookup(tbl, var) is Some && (forall|i: int|
            0 <= i < args@.len() ==> st_lookup(tbl, args@[i]) is Some),
        Op::Branch { cond, .. } => st_lookup(tbl, cond) is Some,
        Op::Jump { target, args } => match tt_lookup(tt, target) {
            Some(params) => forall|i: int|
                0 <= i < min2(params.len() as int, args@.len() as int) && params[i].ty != LTy::Unit
                    ==> st_lookup(tbl, args@[i]) is Some,
            None => true,
        },
        Op::Ret { value } => match value {
            Some(v) => st_lookup(tbl, v) is Some,
            None => true,
        },
    }
}

/// The destination and both operands of a binary operation are bound.
pub open spec fn reads3(tbl: Seq<(Symbol, Reg)>, var: Symbol, l: Symbol, r: Symbol) -> bool {
    st_lookup(tbl, var) is Some && st_lookup(tbl, l) is Some && st_lookup(tbl, r) is Some
}

/// The smaller of two lengths.
pub open spec fn min2(a: int, b: int) -> int {
    if a <= b {
        a
    } else {
        b
    }
}

proof fn lemma_args_regs_ok(tbl: Seq<(Symbol, Reg)>, args: Seq<Symbol>, n: int)
    requires
        args_regs_upto(tbl, args, n) is Ok,
    ensures
        forall|i: int| 0 <= i < n ==> st_lookup(tbl, args[i]) is Some,
    decreases n,
{
    if n > 0 {
        if args_regs_upto(tbl, args, n - 1) is Err {
            lemma_args_regs_err(tbl, args, n - 1, n);
        }
        lemma_args_regs_ok(tbl, args, n - 1);
    }
}

proof fn lemma_tuple_stores_ok(
    tbl: Seq<(Symbol, Reg)>,
    base: Reg,
    fields: Seq<Symbol>,
    ltys: Seq<LTy>,
    n: int,
)
    requires
        tuple_stores_upto(tbl, base, fields, ltys, n) is Ok,
    ensures
        forall|i: int| 0 <= i < n && ltys[i] != LTy::Unit ==> st_lookup(tbl, fields[i]) is Some,
    decreases n,
{
    if n > 0 {
        if tuple_stores_upto(tbl, base, fields, ltys, n - 1) is Err {
            lemma_tuple_stores_err(tbl, base, fields, ltys, n - 1, n);
        }
        lemma_tuple_stores_ok(tbl, base, fields, ltys, n - 1);
    }
}

proof fn lemma_closure_stores_ok(
    tbl: Seq<(Symbol, Reg)>,
    base: Reg,
    env: Seq<(EbbTy, Symbol)>,
    n: int,
)
    requires
        closure_stores_upto(tbl, base, env, n) is Ok,
    ensures
        forall|i: int|
            0 <= i < n && lty_of(env[i].0) != LTy::Unit ==> st_lookup(tbl, env[i].1) is Some,
    decreases n,
{
    if n > 0 {
        if closure_stores_upto(tbl, base, env, n - 1) is Err {
            lemma_closure_stores_err(tbl, base, env, n - 1, n);
        }
        lemma_closure_stores_ok(tbl, base, env, n - 1);
    }
}

proof fn lemma_jump_moves_ok(
    tbl: Seq<(Symbol, Reg)>,
    params: Seq<Reg>,
    args: Seq<Symbol>,
    n: int,
)
    requires
        jump_moves_upto(tbl, params, args, n) is Ok,
    ensures
        forall|i: int| 0 <= i < n && params[i].ty != LTy::Unit ==> st_lookup(tbl, args[i]) is Some,
    decreases n,
{
    if n > 0 {
        if jump_moves_upto(tbl, params, args, n - 1) is Err {
            lemma_jump_moves_err(tbl, params, args, n - 1, n);
        }
        lemma_jump_moves_ok(tbl, params, args, n - 1);
    }
}

/// An operation that lowers successfully resolved every symbol it read.
#[verifier::rlimit(60)]
proof fn lemma_op_ok_reads(
    tbl: Seq<(Symbol, Reg)>,
    tt: Seq<(Symbol, Seq<Reg>)>,
    regs: Seq<LTy>,
    op: Op,
)
    requires
        lower_op(tbl, tt, regs, op) is Ok,
    ensures
        op_reads_resolved(tbl, tt, op),
{
    match op {
        Op::Tuple { var, tys, tuple } => {
            let n = min2(tuple@.len() as int, tys@.len() as int);
            lemma_tuple_stores_ok(tbl, st_lookup(tbl, var)->Some_0, tuple@, ltys_of(tys@), n);
            assert forall|i: int|
                0 <= i < n && lty_of(tys@[i]) != LTy::Unit implies st_lookup(
                tbl,
                tuple@[i],
            ) is Some by {
                assert(ltys_of(tys@)[i] == lty_of(tys@[i]));
            }
        },
        Op::Closure { var, env, .. } => {
            lemma_closure_stores_ok(tbl, st_lookup(tbl, var)->Some_0, env@, env@.len() as int);
        },
        Op::BuiltinCall { args, .. } => {
            lemma_args_regs_ok(tbl, args@, args@.len() as int);
        },
        Op::Call { args, .. } => {
            lemma_args_regs_ok(tbl, args@, args@.len() as int);
        },
        Op::Jump { target, args } => {
            match tt_lookup(tt, target) {
                Some(params) => {
                    lemma_jump_moves_ok(
                        tbl,
                        params,
                        args@,
                        min2(params.len() as int, args@.len() as int),
                    );
                },
                None => {},
            }
        },
        _ => {},
    }
}

/// In a function that lowers successfully, every symbol read by any operation
/// of any block is bound in the symbol table the registration pass built.
pub proof fn lemma_reads_resolved(f: mir::Function, bi: int, oi: int)
    requires
        lower_function_spec(f) is Ok,
        0 <= bi < f.body@.len(),
        0 <= oi < f.body@[bi].body@.len(),
    ensures
        op_reads_resolved(
            symbol_state_of(f.body@).tbl,
            target_table_of(symbol_state_of(f.body@).tbl, f.body@),
            f.body@[bi].body@[oi],
        ),
{
    let ss = symbol_state_of(f.body@);
    let tt = target_table_of(ss.tbl, f.body@);
    let n = f.body@.len() as int;
    // the whole fold succeeded, so the fold up to and including block bi did
    if lower_blocks_upto(ss.tbl, tt, ss.regs, f.body@, bi + 1) is Err {
        lemma_lower_blocks_err(ss.tbl, tt, ss.regs, f.body@, bi + 1, n);
    }
    let prev = lower_blocks_upto(ss.tbl, tt, ss.regs, f.body@, bi)->Ok_0;
    let ebb = f.body@[bi];
    let m = ebb.body@.len() as int;
    // the block lowered, so its operation fold up to and including oi did
    if lower_ops_upto(ss.tbl, tt, Seq::<OpS>::empty(), prev.1, ebb.body@, oi + 1) is Err {
        lemma_lower_ops_err(ss.tbl, tt, Seq::<OpS>::empty(), prev.1, ebb.body@, oi + 1, m);
    }
    let st = lower_ops_upto(ss.tbl, tt, Seq::<OpS>::empty(), prev.1, ebb.body@, oi)->Ok_0;
    assert(lower_op(ss.tbl, tt, st.1, ebb.body@[oi]) is Ok);
    lemma_op_ok_reads(ss.tbl, tt, st.1, ebb.body@[oi]);
}

// ---------------------------------------------------------------------------
// Unit values vanish.
// ---------------------------------------------------------------------------

/// Aliasing a Unit-typed value emits no instruction and allocates no register.
pub proof fn lemma_unit_alias_silent(
    tbl: Seq<(Symbol, Reg)>,
    tt: Seq<(Symbol, Seq<Reg>)>,
    regs: Seq<LTy>,
    var: Symbol,
    sym: Symbol,
)
    ensures
        lower_op(tbl, tt, regs, Op::Alias { var, ty: EbbTy::Unit, sym }) == Ok::<
            (Seq<OpS>, Seq<LTy>),
            TransError,
        >((Seq::<OpS>::empty(), Seq::<LTy>::empty())),
{
}

/// Projecting a field whose type maps to Unit emits no load at all.
pub proof fn lemma_unit_proj_silent(
    tbl: Seq<(Symbol, Reg)>,
    tt: Seq<(Symbol, Seq<Reg>)>,
    regs: Seq<LTy>,
    var: Symbol,
    ty: EbbTy,
    index: u32,
    tuple: Symbol,
)
    requires
        lty_of(ty) == LTy::Unit,
    ensures
        lower_op(tbl, tt, regs, Op::Proj { var, ty, index, tuple }) == Ok::<
            (Seq<OpS>, Seq<LTy>),
            TransError,
        >((Seq::<OpS>::empty(), Seq::<LTy>::empty())),
{
}

// ---------------------------------------------------------------------------
// Comparison overloading goes by the operands' machine types.
// ---------------------------------------------------------------------------

/// An equality whose operands both sit in 64-bit integer registers lowers to
/// exactly the 64-bit integer equality instruction.
pub proof fn lemma_eq_i64(
    tbl: Seq<(Symbol, Reg)>,
    tt: Seq<(Symbol, Seq<Reg>)>,
    regs: Seq<LTy>,
    var: Symbol,
    ty: EbbTy,
    l: Symbol,
    r: Symbol,
)
    requires
        st_lookup(tbl, l) is Some,
        st_lookup(tbl, r) is Some,
        st_lookup(tbl, var) is Some,
        st_lookup(tbl, l)->Some_0.ty == LTy::I64,
        st_lookup(tbl, r)->Some_0.ty == LTy::I64,
    ensures
        lower_op(tbl, tt, regs, Op::Eq { var, ty, l, r }) == Ok::<
            (Seq<OpS>, Seq<LTy>),
            TransError,
        >(
            (
                seq![
                    OpS::EqI64(
                        st_lookup(tbl, var)->Some_0,
                        st_lookup(tbl, l)->Some_0,
                        st_lookup(tbl, r)->Some_0,
                    )
                ],
                Seq::<LTy>::empty(),
            ),
        ),
{
}

// ---------------------------------------------------------------------------
// Branch shape: dense keys dispatch in one instruction, gapped keys in a
// linear chain.
// ---------------------------------------------------------------------------

/// A branch without a default whose sorted clause keys form exactly the range
/// `0..len-1` lowers to one dense jump-table instruction listing the targets
/// in key order, and allocates nothing.
pub proof fn lemma_dense_branch_one_table(
    tbl: Seq<(Symbol, Reg)>,
    tt: Seq<(Symbol, Seq<Reg>)>,
    regs: Seq<LTy>,
    cond: Symbol,
    clauses: Vec<(u32, Symbol, Vec<Symbol>)>,
)
    requires
        st_lookup(tbl, cond) is Some,
        is_dense(sorted_clauses(clauses@)),
    ensures
        lower_op(tbl, tt, regs, Op::Branch { cond, clauses, default: None }) == Ok::<
            (Seq<OpS>, Seq<LTy>),
            TransError,
        >(
            (
                seq![
                    OpS::JumpTableI32(
                        st_lookup(tbl, cond)->Some_0,
                        table_labels(sorted_clauses(clauses@)),
                        None,
                    )
                ],
                Seq::<LTy>::empty(),
            ),
        ),
{
    let moves = Seq::<OpS>::empty();
    let jt = OpS::JumpTableI32(
        st_lookup(tbl, cond)->Some_0,
        table_labels(sorted_clauses(clauses@)),
        None,
    );
    assert(moves.push(jt) =~= seq![jt]);
}

/// A branch without a default whose sorted keys are not the contiguous range,
/// on a 32-bit discriminant, lowers to the linear compare-and-jump chain over
/// two fresh 32-bit scratch registers — and to no jump table.
pub proof fn lemma_gapped_branch_chain(
    tbl: Seq<(Symbol, Reg)>,
    tt: Seq<(Symbol, Seq<Reg>)>,
    regs: Seq<LTy>,
    cond: Symbol,
    clauses: Vec<(u32, Symbol, Vec<Symbol>)>,
)
    requires
        st_lookup(tbl, cond) is Some,
        st_lookup(tbl, cond)->Some_0.ty == LTy::I32,
        !is_dense(sorted_clauses(clauses@)),
    ensures
        ({
            let sorted = sorted_clauses(clauses@);
            let boolean = Reg { ty: LTy::I32, id: regs.len() as usize };
            let constant = Reg { ty: LTy::I32, id: (regs.len() + 1) as usize };
            lower_op(tbl, tt, regs, Op::Branch { cond, clauses, default: None }) == Ok::<
                (Seq<OpS>, Seq<LTy>),
                TransError,
            >(
                (
                    chain_upto(
                        st_lookup(tbl, cond)->Some_0,
                        boolean,
                        constant,
                        sorted,
                        sorted.len() as int,
                    ),
                    seq![LTy::I32, LTy::I32],
                ),
            )
        }),
{
    let sorted = sorted_clauses(clauses@);
    let boolean = Reg { ty: LTy::I32, id: regs.len() as usize };
    let constant = Reg { ty: LTy::I32, id: (regs.len() + 1) as usize };
    let chain = chain_upto(
        st_lookup(tbl, cond)->Some_0,
        boolean,
        constant,
        sorted,
        sorted.len() as int,
    );
    assert(Seq::<OpS>::empty() + chain + Seq::<OpS>::empty() =~= chain);
}

/// A comparison whose operands' machine types are not a supported same-width
/// pairing — one 32-bit integer against one 64-bit float, say — aborts with
/// the unsupported-operands error.
pub proof fn lemma_cmp_mixed_error(
    tbl: Seq<(Symbol, Reg)>,
    tt: Seq<(Symbol, Seq<Reg>)>,
    regs: Seq<LTy>,
    var: Symbol,
    ty: EbbTy,
    l: Symbol,
    r: Symbol,
)
    requires
        st_lookup(tbl, l) is Some,
        st_lookup(tbl, r) is Some,
        !cmp_supported(st_lookup(tbl, l)->Some_0.ty, st_lookup(tbl, r)->Some_0.ty),
    ensures
        lower_op(tbl, tt, regs, Op::Eq { var, ty, l, r }) == Err::<
            (Seq<OpS>, Seq<LTy>),
            TransError,
        >(TransError::UnsupportedOperands),
{
}

} // verus!
