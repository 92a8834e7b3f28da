//! The type mapper, register allocator, symbol table and target table.
//!
//! The symbol table is built in a single forward pass over a function's blocks
//! (declare-all, then translate): the entry block's parameters are registered
//! first, fixing register ids `0..nparams-1`, then every block's parameters and
//! every value-producing operation's destination, each symbol registered at
//! most once. The ghost `AllocState` is the mathematical model of this pass.

use vstd::prelude::*;
use crate::lir::{LTy, Reg};
use crate::mir::{EbbTy, Op, Symbol, EBB};

verus! {

/// The type mapper: the machine type of a source-level type.
pub open spec fn lty_of(t: EbbTy) -> LTy {
    match t {
        EbbTy::Unit => LTy::Unit,
        EbbTy::Int => LTy::I32,
        EbbTy::Float => LTy::F64,
        EbbTy::Bool => LTy::I32,
        EbbTy::Tuple(_) => LTy::Ptr,
        EbbTy::Cls { .. } => LTy::Ptr,
        EbbTy::Ebb { .. } => LTy::FPtr,
    }
}

/// The model of the registration pass: the symbol table built so far, and the
/// ordered machine types of the registers allocated so far. Register `i` has
/// type `regs[i]`, so the next fresh id is `regs.len()`.
pub ghost struct AllocState {
    pub tbl: Seq<(Symbol, Reg)>,
    pub regs: Seq<LTy>,
}

/// The register of a symbol: the first table entry bound to it, if any.
pub open spec fn st_lookup(entries: Seq<(Symbol, Reg)>, s: Symbol) -> Option<Reg>
    decreases entries.len(),
{
    if entries.len() == 0 {
        None
    } else if entries[0].0 == s {
        Some(entries[0].1)
    } else {
        st_lookup(entries.drop_first(), s)
    }
}

/// Registering one symbol: a fresh register of type `t` if the symbol is new,
/// and no change if it is already bound.
pub open spec fn spec_intern(st: AllocState, s: Symbol, t: LTy) -> AllocState {
    if st_lookup(st.tbl, s) is Some {
        st
    } else {
        AllocState {
            tbl: st.tbl.push((s, Reg { ty: t, id: st.regs.len() as usize })),
            regs: st.regs.push(t),
        }
    }
}

/// Registering the first `n` parameters of a block, in declaration order.
pub open spec fn intern_params_upto(st: AllocState, params: Seq<(EbbTy, Symbol)>, n: int) -> AllocState
    decreases n,
{
    if n <= 0 {
        st
    } else {
        let prev = intern_params_upto(st, params, n - 1);
        spec_intern(prev, params[n - 1].1, lty_of(params[n - 1].0))
    }
}

/// Registering all parameters of a block.
pub open spec fn intern_params(st: AllocState, params: Seq<(EbbTy, Symbol)>) -> AllocState {
    intern_params_upto(st, params, params.len() as int)
}

/// The destination of one operation, with the machine type its register gets:
/// heap-aggregate constructions always get a `Ptr`-typed register; other
/// value-producing operations get the mapped declared type; control transfers
/// bind nothing.
pub open spec fn op_dest(op: Op) -> Option<(Symbol, LTy)> {
    match op {
        Op::Lit { var, ty, .. } => Some((var, lty_of(ty))),
        Op::Alias { var, ty, .. } => Some((var, lty_of(ty))),
        Op::Add { var, ty, .. } => Some((var, lty_of(ty))),
        Op::Sub { var, ty, .. } => Some((var, lty_of(ty))),
        Op::Mul { var, ty, .. } => Some((var, lty_of(ty))),
        Op::DivInt { var, ty, .. } => Some((var, lty_of(ty))),
        Op::DivFloat { var, ty, .. } => Some((var, lty_of(ty))),
        Op::Mod { var, ty, .. } => Some((var, lty_of(ty))),
        Op::Eq { var, ty, .. } => Some((var, lty_of(ty))),
        Op::Neq { var, ty, .. } => Some((var, lty_of(ty))),
        Op::Gt { var, ty, .. } => Some((var, lty_of(ty))),
        Op::Ge { var, ty, .. } => Some((var, lty_of(ty))),
        Op::Lt { var, ty, .. } => Some((var, lty_of(ty))),
        Op::Le { var, ty, .. } => Some((var, lty_of(ty))),
        Op::Proj { var, ty, .. } => Some((var, lty_of(ty))),
        Op::BuiltinCall { var, ty, .. } => Some((var, lty_of(ty))),
        Op::Call { var, ty, .. } => Some((var, lty_of(ty))),
        Op::Tuple { var, .. } => Some((var, LTy::Ptr)),
        Op::Closure { var, .. } => Some((var, LTy::Ptr)),
        Op::Branch { .. } => None,
        Op::Jump { .. } => None,
        Op::Ret { .. } => None,
    }
}

/// Registering the destination of one operation.
pub open spec fn intern_op(st: AllocState, op: Op) -> AllocState {
    match op_dest(op) {
        Some((var, t)) => spec_intern(st, var, t),
        None => st,
    }
}

/// Registering the destinations of the first `n` operations of a block.
pub open spec fn intern_ops_upto(st: AllocState, ops: Seq<Op>, n: int) -> AllocState
    decreases n,
{
    if n <= 0 {
        st
    } else {
        intern_op(intern_ops_upto(st, ops, n - 1), ops[n - 1])
    }
}

/// Registering one whole block: its parameters, then its destinations.
pub open spec fn intern_block(st: AllocState, ebb: EBB) -> AllocState {
    intern_ops_upto(intern_params(st, ebb.params@), ebb.body@, ebb.body@.len() as int)
}

/// Registering the first `n` blocks, in declaration order.
pub open spec fn intern_blocks_upto(st: AllocState, body: Seq<EBB>, n: int) -> AllocState
    decreases n,
{
    if n <= 0 {
        st
    } else {
        intern_block(intern_blocks_upto(st, body, n - 1), body[n - 1])
    }
}

/// The whole registration pass: the entry block's parameters first, then every
/// block in order.
pub open spec fn build_symbol_state(init: AllocState, body: Seq<EBB>) -> AllocState {
    intern_blocks_upto(intern_params(init, body[0].params@), body, body.len() as int)
}

/// The registration pass started from nothing, as `trans_function` runs it.
pub open spec fn symbol_state_of(body: Seq<EBB>) -> AllocState {
    build_symbol_state(AllocState { tbl: Seq::empty(), regs: Seq::empty() }, body)
}

/// The register allocator: owns the ordered list of allocated register types;
/// a register's id is its index in that list.
pub struct RegAlloc {
    pub regs: Vec<LTy>,
}

impl RegAlloc {
    /// A fresh allocator with no registers.
    pub fn new() -> (r: RegAlloc)
        ensures
            r.regs@ == Seq::<LTy>::empty(),
    {
        RegAlloc { regs: Vec::new() }
    }

    /// Allocates one new register of the given type, with the next id.
    pub fn allocate(&mut self, ty: LTy) -> (r: Reg)
        ensures
            r == (Reg { ty, id: old(self).regs@.len() as usize }),
            final(self).regs@ == old(self).regs@.push(ty),
    {
        let id = self.regs.len();
        self.regs.push(ty);
        Reg { ty, id }
    }

    /// Gives up the allocator, handing out the full ordered register type
    /// list for the function record.
    pub fn into_regs(self) -> (v: Vec<LTy>)
        ensures
            v@ == self.regs@,
    {
        self.regs
    }
}

/// The symbol table: one register per registered symbol.
pub struct SymbolTable {
    pub entries: Vec<(Symbol, Reg)>,
}

impl SymbolTable {
    /// An empty table.
    pub fn new() -> (r: SymbolTable)
        ensures
            r.entries@ == Seq::<(Symbol, Reg)>::empty(),
    {
        SymbolTable { entries: Vec::new() }
    }

    /// The register bound to `s`, if any.
    pub fn get(&self, s: Symbol) -> (r: Option<Reg>)
        ensures
            r == st_lookup(self.entries@, s),
    {
        let n = self.entries.len();
        let mut i: usize = 0;
        proof {
            assert(self.entries@.skip(0) =~= self.entries@);
        }
        while i < n
            invariant
                n == self.entries@.len(),
                i <= n,
                st_lookup(self.entries@, s) == st_lookup(self.entries@.skip(i as int), s),
            decreases n - i,
        {
            proof {
                assert(self.entries@.skip(i as int)[0] == self.entries@[i as int]);
            }
            if self.entries[i].0 == s {
                return Some(self.entries[i].1);
            }
            proof {
                assert(self.entries@.skip(i as int).drop_first() =~= self.entries@.skip(
                    i as int + 1,
                ));
            }
            i = i + 1;
        }
        proof {
            assert(self.entries@.skip(n as int) =~= Seq::<(Symbol, Reg)>::empty());
        }
        None
    }

    /// Registers `s` with a fresh register of type `t` unless already bound.
    pub fn intern(&mut self, ra: &mut RegAlloc, s: Symbol, t: LTy)
        ensures
            ({
                let st = spec_intern(
                    AllocState { tbl: old(self).entries@, regs: old(ra).regs@ },
                    s,
                    t,
                );
                final(self).entries@ == st.tbl && final(ra).regs@ == st.regs
            }),
    {
        let existing = self.get(s);
        match existing {
            Some(_) => {},
            None => {
                let r = ra.allocate(t);
                self.entries.push((s, r));
            },
        }
    }
}

/// The target table: for each block label, the ordered registers of that
/// block's declared parameters.
pub struct TargetTable {
    pub entries: Vec<(Symbol, Vec<Reg>)>,
}

/// The model view of the target table's entries.
pub open spec fn tt_view(entries: Seq<(Symbol, Vec<Reg>)>) -> Seq<(Symbol, Seq<Reg>)> {
    entries.map_values(|e: (Symbol, Vec<Reg>)| (e.0, e.1@))
}

/// The parameter registers stored for a label, if any.
pub open spec fn tt_lookup(entries: Seq<(Symbol, Seq<Reg>)>, s: Symbol) -> Option<Seq<Reg>>
    decreases entries.len(),
{
    if entries.len() == 0 {
        None
    } else if entries[0].0 == s {
        Some(entries[0].1)
    } else {
        tt_lookup(entries.drop_first(), s)
    }
}

/// The registers of a block's declared parameters, in declaration order.
pub open spec fn params_regs(tbl: Seq<(Symbol, Reg)>, params: Seq<(EbbTy, Symbol)>) -> Seq<Reg> {
    Seq::new(params.len(), |i: int| st_lookup(tbl, params[i].1)->Some_0)
}

/// The target table of the first `n` blocks.
pub open spec fn tt_upto(tbl: Seq<(Symbol, Reg)>, body: Seq<EBB>, n: int) -> Seq<(Symbol, Seq<Reg>)>
    decreases n,
{
    if n <= 0 {
        Seq::empty()
    } else {
        tt_upto(tbl, body, n - 1).push((body[n - 1].name, params_regs(tbl, body[n - 1].params@)))
    }
}

/// The target table of a whole function body.
pub open spec fn target_table_of(tbl: Seq<(Symbol, Reg)>, body: Seq<EBB>) -> Seq<(Symbol, Seq<Reg>)> {
    tt_upto(tbl, body, body.len() as int)
}

impl TargetTable {
    /// The parameter registers of the block labelled `s`, if any.
    pub fn get(&self, s: Symbol) -> (r: Option<&Vec<Reg>>)
        ensures
            match r {
                Some(v) => tt_lookup(tt_view(self.entries@), s) == Some(v@),
                None => tt_lookup(tt_view(self.entries@), s) is None,
            },
    {
        let n = self.entries.len();
        let mut i: usize = 0;
        proof {
            assert(tt_view(self.entries@).skip(0) =~= tt_view(self.entries@));
        }
        while i < n
            invariant
                n == self.entries@.len(),
                i <= n,
                tt_lookup(tt_view(self.entries@), s) == tt_lookup(
                    tt_view(self.entries@).skip(i as int),
                    s,
                ),
            decreases n - i,
        {
            proof {
                assert(tt_view(self.entries@).skip(i as int)[0] == tt_view(self.entries@)[
                    i as int
                ]);
            }
            if self.entries[i].0 == s {
                return Some(&self.entries[i].1);
            }
            proof {
                assert(tt_view(self.entries@).skip(i as int).drop_first() =~= tt_view(
                    self.entries@,
                ).skip(i as int + 1));
            }
            i = i + 1;
        }
        proof {
            assert(tt_view(self.entries@).skip(n as int) =~= Seq::<(Symbol, Seq<Reg>)>::empty());
        }
        None
    }
}

// ---------------------------------------------------------------------------
// Facts about lookup and registration, used to show that the registration
// pass binds every block parameter and that the entry block's parameters get
// ids 0..nparams-1.
// ---------------------------------------------------------------------------

/// Looking a symbol up after a push: an existing binding wins; otherwise the
/// pushed entry is found exactly when its key matches.
pub proof fn lemma_st_lookup_push(entries: Seq<(Symbol, Reg)>, e: (Symbol, Reg), s: Symbol)
    ensures
        st_lookup(entries.push(e), s) == (if st_lookup(entries, s) is Some {
            st_lookup(entries, s)
        } else if e.0 == s {
            Some(e.1)
        } else {
            None::<Reg>
        }),
    decreases entries.len(),
{
    let p = entries.push(e);
    if entries.len() == 0 {
        assert(p[0] == e);
        if e.0 == s {
            assert(st_lookup(p, s) == Some(e.1));
        } else {
            assert(p.drop_first() =~= Seq::<(Symbol, Reg)>::empty());
            assert(st_lookup(p, s) == st_lookup(p.drop_first(), s));
        }
    } else {
        assert(p[0] == entries[0]);
        if entries[0].0 == s {
            assert(st_lookup(p, s) == Some(entries[0].1));
            assert(st_lookup(entries, s) == Some(entries[0].1));
        } else {
            assert(p.drop_first() =~= entries.drop_first().push(e));
            lemma_st_lookup_push(entries.drop_first(), e, s);
            assert(st_lookup(p, s) == st_lookup(p.drop_first(), s));
            assert(st_lookup(entries, s) == st_lookup(entries.drop_first(), s));
        }
    }
}

/// A lookup misses when no entry has the key.
pub proof fn lemma_st_lookup_none(entries: Seq<(Symbol, Reg)>, s: Symbol)
    requires
        forall|i: int| 0 <= i < entries.len() ==> entries[i].0 != s,
    ensures
        st_lookup(entries, s) is None,
    decreases entries.len(),
{
    if entries.len() > 0 {
        assert(entries[0].0 != s);
        assert(forall|i: int|
            0 <= i < entries.drop_first().len() ==> entries.drop_first()[i] == entries[i + 1]);
        lemma_st_lookup_none(entries.drop_first(), s);
    }
}

/// Registration keeps existing bindings, binds its symbol, and only appends to
/// the register list.
pub proof fn lemma_intern_props(st: AllocState, s: Symbol, t: LTy)
    ensures
        st_lookup(spec_intern(st, s, t).tbl, s) is Some,
        forall|q: Symbol|
            st_lookup(st.tbl, q) is Some ==> #[trigger] st_lookup(spec_intern(st, s, t).tbl, q)
                == st_lookup(st.tbl, q),
        st.regs.is_prefix_of(spec_intern(st, s, t).regs),
{
    if st_lookup(st.tbl, s) is None {
        let e = (s, Reg { ty: t, id: st.regs.len() as usize });
        lemma_st_lookup_push(st.tbl, e, s);
        assert forall|q: Symbol| st_lookup(st.tbl, q) is Some implies #[trigger] st_lookup(
            spec_intern(st, s, t).tbl,
            q,
        ) == st_lookup(st.tbl, q) by {
            lemma_st_lookup_push(st.tbl, e, q);
        }
        assert(st.regs.is_prefix_of(st.regs.push(t)));
    }
}

/// Registering a block's parameters keeps existing bindings and only appends
/// registers.
pub proof fn lemma_intern_params_props(st: AllocState, params: Seq<(EbbTy, Symbol)>, n: int)
    ensures
        forall|q: Symbol|
            st_lookup(st.tbl, q) is Some ==> #[trigger] st_lookup(
                intern_params_upto(st, params, n).tbl,
                q,
            ) == st_lookup(st.tbl, q),
        st.regs.is_prefix_of(intern_params_upto(st, params, n).regs),
    decreases n,
{
    if n > 0 {
        lemma_intern_params_props(st, params, n - 1);
        let prev = intern_params_upto(st, params, n - 1);
        lemma_intern_props(prev, params[n - 1].1, lty_of(params[n - 1].0));
    }
}

/// Registering one operation's destination keeps existing bindings and only
/// appends registers.
pub proof fn lemma_intern_op_props(st: AllocState, op: Op)
    ensures
        forall|q: Symbol|
            st_lookup(st.tbl, q) is Some ==> #[trigger] st_lookup(intern_op(st, op).tbl, q)
                == st_lookup(st.tbl, q),
        st.regs.is_prefix_of(intern_op(st, op).regs),
{
    match op_dest(op) {
        Some((var, t)) => lemma_intern_props(st, var, t),
        None => {},
    }
}

/// Registering a block's destinations keeps existing bindings and only
/// appends registers.
pub proof fn lemma_intern_ops_props(st: AllocState, ops: Seq<Op>, n: int)
    ensures
        forall|q: Symbol|
            st_lookup(st.tbl, q) is Some ==> #[trigger] st_lookup(
                intern_ops_upto(st, ops, n).tbl,
                q,
            ) == st_lookup(st.tbl, q),
        st.regs.is_prefix_of(intern_ops_upto(st, ops, n).regs),
    decreases n,
{
    if n > 0 {
        lemma_intern_ops_props(st, ops, n - 1);
        lemma_intern_op_props(intern_ops_upto(st, ops, n - 1), ops[n - 1]);
    }
}

/// Registering whole blocks keeps existing bindings and only appends
/// registers.
pub proof fn lemma_intern_blocks_props(st: AllocState, body: Seq<EBB>, n: int)
    ensures
        forall|q: Symbol|
            st_lookup(st.tbl, q) is Some ==> #[trigger] st_lookup(
                intern_blocks_upto(st, body, n).tbl,
                q,
            ) == st_lookup(st.tbl, q),
        st.regs.is_prefix_of(intern_blocks_upto(st, body, n).regs),
    decreases n,
{
    if n > 0 {
        lemma_intern_blocks_props(st, body, n - 1);
        let prev = intern_blocks_upto(st, body, n - 1);
        let ebb = body[n - 1];
        lemma_intern_params_props(prev, ebb.params@, ebb.params@.len() as int);
        lemma_intern_ops_props(intern_params(prev, ebb.params@), ebb.body@, ebb.body@.len() as int);
    }
}

/// After a block's parameters are registered, each of them is bound.
pub proof fn lemma_params_interned(st: AllocState, params: Seq<(EbbTy, Symbol)>, n: int, j: int)
    requires
        0 <= j < n <= params.len(),
    ensures
        st_lookup(intern_params_upto(st, params, n).tbl, params[j].1) is Some,
    decreases n,
{
    let prev = intern_params_upto(st, params, n - 1);
    if j == n - 1 {
        lemma_intern_props(prev, params[n - 1].1, lty_of(params[n - 1].0));
    } else {
        lemma_params_interned(st, params, n - 1, j);
        lemma_intern_props(prev, params[n - 1].1, lty_of(params[n - 1].0));
    }
}

/// After the whole registration pass, every block parameter is bound.
pub proof fn lemma_all_params_present(init: AllocState, body: Seq<EBB>, bi: int, pi: int)
    requires
        body.len() > 0,
        0 <= bi < body.len(),
        0 <= pi < body[bi].params@.len(),
    ensures
        st_lookup(build_symbol_state(init, body).tbl, body[bi].params@[pi].1) is Some,
{
    let st0 = intern_params(init, body[0].params@);
    lemma_blocks_params_present(st0, body, body.len() as int, bi, pi);
}

proof fn lemma_blocks_params_present(st: AllocState, body: Seq<EBB>, n: int, bi: int, pi: int)
    requires
        0 <= bi < n <= body.len(),
        0 <= pi < body[bi].params@.len(),
    ensures
        st_lookup(intern_blocks_upto(st, body, n).tbl, body[bi].params@[pi].1) is Some,
    decreases n,
{
    let prev = intern_blocks_upto(st, body, n - 1);
    let ebb = body[n - 1];
    let s = body[bi].params@[pi].1;
    if bi == n - 1 {
        lemma_params_interned(prev, ebb.params@, ebb.params@.len() as int, pi);
        lemma_intern_ops_props(intern_params(prev, ebb.params@), ebb.body@, ebb.body@.len() as int);
    } else {
        lemma_blocks_params_present(st, body, n - 1, bi, pi);
        lemma_intern_params_props(prev, ebb.params@, ebb.params@.len() as int);
        lemma_intern_ops_props(intern_params(prev, ebb.params@), ebb.body@, ebb.body@.len() as int);
    }
}

/// Pairwise-distinct parameter symbols.
pub open spec fn distinct_params(params: Seq<(EbbTy, Symbol)>) -> bool {
    forall|i: int, j: int|
        0 <= i < params.len() && 0 <= j < params.len() && i != j ==> params[i].1 != params[j].1
}

/// Registering distinct parameters from an empty state gives them register ids
/// `0..n-1`, typed by the type mapper, in declaration order.
pub proof fn lemma_entry_params_regs(params: Seq<(EbbTy, Symbol)>, n: int)
    requires
        distinct_params(params),
        0 <= n <= params.len(),
    ensures
        ({
            let st = intern_params_upto(
                AllocState { tbl: Seq::empty(), regs: Seq::empty() },
                params,
                n,
            );
            &&& st.regs.len() == n
            &&& st.tbl.len() == n
            &&& forall|i: int| 0 <= i < n ==> st.regs[i] == lty_of(params[i].0)
            &&& forall|i: int|
                0 <= i < n ==> st.tbl[i] == (
                    params[i].1,
                    Reg { ty: lty_of(params[i].0), id: i as usize },
                )
        }),
    decreases n,
{
    if n > 0 {
        lemma_entry_params_regs(params, n - 1);
        let prev = intern_params_upto(
            AllocState { tbl: Seq::empty(), regs: Seq::empty() },
            params,
            n - 1,
        );
        lemma_st_lookup_none(prev.tbl, params[n - 1].1);
        assert(forall|i: int| 0 <= i < n - 1 ==> prev.tbl[i].0 == params[i].1);
        assert(st_lookup(prev.tbl, params[n - 1].1) is None);
    }
}

} // verus!
