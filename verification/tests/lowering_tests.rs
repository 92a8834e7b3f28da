use mir2lir::lir;
use mir2lir::lir::{Addr, LTy, Label, Reg};
use mir2lir::mir;
use mir2lir::mir::{EbbTy, Literal, Op, Symbol, EBB};
use mir2lir::{MIR2LIR, TransError};

fn sym(n: u64) -> Symbol {
    Symbol(n)
}

fn reg(ty: LTy, id: usize) -> Reg {
    Reg { ty, id }
}

fn addr(base: Reg, offset: u32) -> Addr {
    Addr { base, offset }
}

fn one_block_fn(params: Vec<(EbbTy, Symbol)>, body: Vec<Op>, body_ty: EbbTy) -> mir::Function {
    mir::Function {
        name: sym(100),
        body: vec![EBB { name: sym(0), params, body }],
        body_ty,
    }
}

#[test]
fn type_mapper_table() {
    let t = MIR2LIR::new();
    assert_eq!(t.ebbty_to_lty(&EbbTy::Unit), LTy::Unit);
    assert_eq!(t.ebbty_to_lty(&EbbTy::Int), LTy::I32);
    assert_eq!(t.ebbty_to_lty(&EbbTy::Float), LTy::F64);
    assert_eq!(t.ebbty_to_lty(&EbbTy::Bool), LTy::I32);
    assert_eq!(t.ebbty_to_lty(&EbbTy::Tuple(vec![EbbTy::Int])), LTy::Ptr);
    assert_eq!(
        t.ebbty_to_lty(&EbbTy::Cls { param: Box::new(EbbTy::Int), ret: Box::new(EbbTy::Int) }),
        LTy::Ptr
    );
    assert_eq!(
        t.ebbty_to_lty(&EbbTy::Ebb { param: Box::new(EbbTy::Int), ret: Box::new(EbbTy::Unit) }),
        LTy::FPtr
    );
}

#[test]
fn add_function_end_to_end() {
    let t = MIR2LIR::new();
    let f = one_block_fn(
        vec![(EbbTy::Int, sym(1)), (EbbTy::Int, sym(2))],
        vec![
            Op::Add { var: sym(3), ty: EbbTy::Int, l: sym(1), r: sym(2) },
            Op::Ret { value: Some(sym(3)) },
        ],
        EbbTy::Int,
    );
    let g = t.trans_function(&f).unwrap();
    assert_eq!(g.name, sym(100));
    assert_eq!(g.nparams, 2);
    assert_eq!(g.regs, vec![LTy::I32, LTy::I32, LTy::I32]);
    assert_eq!(g.ret_ty, LTy::I32);
    assert_eq!(g.body.len(), 1);
    assert_eq!(g.body[0].name, Label(sym(0)));
    assert_eq!(
        g.body[0].body,
        vec![
            lir::Op::AddI32(reg(LTy::I32, 2), reg(LTy::I32, 0), reg(LTy::I32, 1)),
            lir::Op::Ret(Some(reg(LTy::I32, 2))),
        ]
    );
}

#[test]
fn dense_branch_uses_one_jump_table() {
    let t = MIR2LIR::new();
    // clauses given out of order; keys {0,1,2} with no default
    let f = one_block_fn(
        vec![(EbbTy::Int, sym(1))],
        vec![Op::Branch {
            cond: sym(1),
            clauses: vec![
                (2, sym(12), vec![]),
                (0, sym(10), vec![]),
                (1, sym(11), vec![]),
            ],
            default: None,
        }],
        EbbTy::Unit,
    );
    let g = t.trans_function(&f).unwrap();
    assert_eq!(
        g.body[0].body,
        vec![lir::Op::JumpTableI32(
            reg(LTy::I32, 0),
            vec![Label(sym(10)), Label(sym(11)), Label(sym(12))],
            None,
        )]
    );
    // no scratch registers were allocated
    assert_eq!(g.regs, vec![LTy::I32]);
}

#[test]
fn gapped_branch_uses_compare_chain() {
    let t = MIR2LIR::new();
    // keys {0,2}: a gap at 1, so a linear chain of two compare-and-jump pairs
    let f = one_block_fn(
        vec![(EbbTy::Int, sym(1))],
        vec![Op::Branch {
            cond: sym(1),
            clauses: vec![(2, sym(12), vec![]), (0, sym(10), vec![])],
            default: None,
        }],
        EbbTy::Unit,
    );
    let g = t.trans_function(&f).unwrap();
    let cond = reg(LTy::I32, 0);
    let boolean = reg(LTy::I32, 1);
    let constant = reg(LTy::I32, 2);
    assert_eq!(
        g.body[0].body,
        vec![
            lir::Op::ConstI32(constant, 0),
            lir::Op::EqI32(boolean, cond, constant),
            lir::Op::JumpIfI32(boolean, Label(sym(10))),
            lir::Op::ConstI32(constant, 2),
            lir::Op::EqI32(boolean, cond, constant),
            lir::Op::JumpIfI32(boolean, Label(sym(12))),
        ]
    );
    assert!(!g.body[0].body.iter().any(|op| matches!(op, lir::Op::JumpTableI32(..))));
    assert_eq!(g.regs, vec![LTy::I32, LTy::I32, LTy::I32]);
}

#[test]
fn branch_default_moves_discriminant() {
    let t = MIR2LIR::new();
    let f = mir::Function {
        name: sym(100),
        body: vec![
            EBB {
                name: sym(0),
                params: vec![(EbbTy::Int, sym(1))],
                body: vec![Op::Branch {
                    cond: sym(1),
                    clauses: vec![(0, sym(10), vec![])],
                    default: Some((sym(5), vec![])),
                }],
            },
            EBB {
                name: sym(5),
                params: vec![(EbbTy::Int, sym(6))],
                body: vec![Op::Ret { value: None }],
            },
        ],
        body_ty: EbbTy::Unit,
    };
    let g = t.trans_function(&f).unwrap();
    // keys {0} are dense, so: one move into the default parameter, one table
    assert_eq!(
        g.body[0].body,
        vec![
            lir::Op::MoveI32(reg(LTy::I32, 1), reg(LTy::I32, 0)),
            lir::Op::JumpTableI32(reg(LTy::I32, 0), vec![Label(sym(10))], Some(Label(sym(5)))),
        ]
    );
}

#[test]
fn tuple_layout_three_fields() {
    let t = MIR2LIR::new();
    // (I32, F64, Ptr): a 24-byte object and stores at offsets 0, 8, 16
    let f = one_block_fn(
        vec![
            (EbbTy::Int, sym(1)),
            (EbbTy::Float, sym(2)),
            (EbbTy::Tuple(vec![]), sym(3)),
        ],
        vec![
            Op::Tuple {
                var: sym(4),
                tys: vec![EbbTy::Int, EbbTy::Float, EbbTy::Tuple(vec![])],
                tuple: vec![sym(1), sym(2), sym(3)],
            },
            Op::Ret { value: None },
        ],
        EbbTy::Unit,
    );
    let g = t.trans_function(&f).unwrap();
    let rt = reg(LTy::Ptr, 3);
    assert_eq!(
        g.body[0].body,
        vec![
            lir::Op::HeapAlloc(rt, 24, vec![LTy::I32, LTy::F64, LTy::Ptr]),
            lir::Op::StoreI32(addr(rt, 0), reg(LTy::I32, 0)),
            lir::Op::StoreF64(addr(rt, 8), reg(LTy::F64, 1)),
            lir::Op::StoreI32(addr(rt, 16), reg(LTy::Ptr, 2)),
            lir::Op::Ret(None),
        ]
    );
}

#[test]
fn unit_tuple_field_is_skipped() {
    let t = MIR2LIR::new();
    // a Unit field stores nothing but still advances the offset
    let f = one_block_fn(
        vec![(EbbTy::Int, sym(1)), (EbbTy::Unit, sym(2))],
        vec![
            Op::Tuple {
                var: sym(3),
                tys: vec![EbbTy::Unit, EbbTy::Int],
                tuple: vec![sym(2), sym(1)],
            },
            Op::Ret { value: None },
        ],
        EbbTy::Unit,
    );
    let g = t.trans_function(&f).unwrap();
    let rt = reg(LTy::Ptr, 2);
    assert_eq!(
        g.body[0].body,
        vec![
            lir::Op::HeapAlloc(rt, 16, vec![LTy::Unit, LTy::I32]),
            lir::Op::StoreI32(addr(rt, 8), reg(LTy::I32, 0)),
            lir::Op::Ret(None),
        ]
    );
}

#[test]
fn unit_projection_emits_no_load() {
    let t = MIR2LIR::new();
    let f = one_block_fn(
        vec![(EbbTy::Tuple(vec![]), sym(1))],
        vec![
            Op::Proj { var: sym(2), ty: EbbTy::Unit, index: 5, tuple: sym(1) },
            Op::Ret { value: None },
        ],
        EbbTy::Unit,
    );
    let g = t.trans_function(&f).unwrap();
    assert_eq!(g.body[0].body, vec![lir::Op::Ret(None)]);
}

#[test]
fn projection_loads_at_eight_byte_stride() {
    let t = MIR2LIR::new();
    let f = one_block_fn(
        vec![(EbbTy::Tuple(vec![]), sym(1))],
        vec![
            Op::Proj { var: sym(2), ty: EbbTy::Float, index: 2, tuple: sym(1) },
            Op::Ret { value: Some(sym(2)) },
        ],
        EbbTy::Float,
    );
    let g = t.trans_function(&f).unwrap();
    assert_eq!(
        g.body[0].body,
        vec![
            lir::Op::LoadF64(reg(LTy::F64, 1), addr(reg(LTy::Ptr, 0), 16)),
            lir::Op::Ret(Some(reg(LTy::F64, 1))),
        ]
    );
}

#[test]
fn unit_alias_emits_nothing() {
    let t = MIR2LIR::new();
    let f = one_block_fn(
        vec![(EbbTy::Unit, sym(1))],
        vec![
            Op::Alias { var: sym(2), ty: EbbTy::Unit, sym: sym(1) },
            Op::Ret { value: None },
        ],
        EbbTy::Unit,
    );
    let g = t.trans_function(&f).unwrap();
    assert_eq!(g.body[0].body, vec![lir::Op::Ret(None)]);
}

#[test]
fn int_alias_uses_sixty_four_bit_move() {
    let t = MIR2LIR::new();
    let f = one_block_fn(
        vec![(EbbTy::Int, sym(1))],
        vec![
            Op::Alias { var: sym(2), ty: EbbTy::Int, sym: sym(1) },
            Op::Ret { value: Some(sym(2)) },
        ],
        EbbTy::Int,
    );
    let g = t.trans_function(&f).unwrap();
    assert_eq!(
        g.body[0].body,
        vec![
            lir::Op::MoveI64(reg(LTy::I32, 1), reg(LTy::I32, 0)),
            lir::Op::Ret(Some(reg(LTy::I32, 1))),
        ]
    );
}

#[test]
fn literals_materialize_typed_constants() {
    let t = MIR2LIR::new();
    let f = one_block_fn(
        vec![],
        vec![
            Op::Lit { var: sym(1), ty: EbbTy::Bool, value: Literal::Bool(true) },
            Op::Lit { var: sym(2), ty: EbbTy::Int, value: Literal::Int(-1) },
            Op::Lit { var: sym(3), ty: EbbTy::Float, value: Literal::Float(0x3FF0000000000000) },
            Op::Ret { value: None },
        ],
        EbbTy::Unit,
    );
    let g = t.trans_function(&f).unwrap();
    assert_eq!(g.nparams, 0);
    assert_eq!(
        g.body[0].body,
        vec![
            lir::Op::ConstI32(reg(LTy::I32, 0), 1),
            lir::Op::ConstI32(reg(LTy::I32, 1), 4294967295),
            lir::Op::ConstF64(reg(LTy::F64, 2), 0x3FF0000000000000),
            lir::Op::Ret(None),
        ]
    );
}

#[test]
fn float_comparison_selects_f64_instruction() {
    let t = MIR2LIR::new();
    let f = one_block_fn(
        vec![(EbbTy::Float, sym(1)), (EbbTy::Float, sym(2))],
        vec![
            Op::Eq { var: sym(3), ty: EbbTy::Bool, l: sym(1), r: sym(2) },
            Op::Ret { value: Some(sym(3)) },
        ],
        EbbTy::Bool,
    );
    let g = t.trans_function(&f).unwrap();
    assert_eq!(
        g.body[0].body,
        vec![
            lir::Op::EqF64(reg(LTy::I32, 2), reg(LTy::F64, 0), reg(LTy::F64, 1)),
            lir::Op::Ret(Some(reg(LTy::I32, 2))),
        ]
    );
}

#[test]
fn mixed_width_comparison_is_an_error() {
    let t = MIR2LIR::new();
    // one 32-bit integer operand against one 64-bit float operand
    let f = one_block_fn(
        vec![(EbbTy::Int, sym(1)), (EbbTy::Float, sym(2))],
        vec![
            Op::Eq { var: sym(3), ty: EbbTy::Bool, l: sym(1), r: sym(2) },
            Op::Ret { value: Some(sym(3)) },
        ],
        EbbTy::Bool,
    );
    assert_eq!(t.trans_function(&f), Err(TransError::UnsupportedOperands));
}

#[test]
fn unsupported_arithmetic_type_is_an_error() {
    let t = MIR2LIR::new();
    let f = one_block_fn(
        vec![(EbbTy::Bool, sym(1)), (EbbTy::Bool, sym(2))],
        vec![
            Op::Add { var: sym(3), ty: EbbTy::Bool, l: sym(1), r: sym(2) },
            Op::Ret { value: None },
        ],
        EbbTy::Unit,
    );
    assert_eq!(t.trans_function(&f), Err(TransError::UnsupportedArith));
}

#[test]
fn unresolved_operand_is_an_error() {
    let t = MIR2LIR::new();
    let f = one_block_fn(
        vec![(EbbTy::Int, sym(1))],
        vec![
            Op::Add { var: sym(3), ty: EbbTy::Int, l: sym(1), r: sym(9) },
            Op::Ret { value: None },
        ],
        EbbTy::Unit,
    );
    assert_eq!(t.trans_function(&f), Err(TransError::UnresolvedSymbol));
}

#[test]
fn empty_function_is_an_error() {
    let t = MIR2LIR::new();
    let f = mir::Function { name: sym(100), body: vec![], body_ty: EbbTy::Unit };
    assert_eq!(t.trans_function(&f), Err(TransError::EmptyBody));
}

#[test]
fn jump_to_unknown_label_is_an_error() {
    let t = MIR2LIR::new();
    let f = one_block_fn(
        vec![(EbbTy::Int, sym(1))],
        vec![Op::Jump { target: sym(99), args: vec![sym(1)] }],
        EbbTy::Unit,
    );
    assert_eq!(t.trans_function(&f), Err(TransError::MissingTarget));
}

#[test]
fn default_target_with_two_parameters_is_an_error() {
    let t = MIR2LIR::new();
    let f = mir::Function {
        name: sym(100),
        body: vec![
            EBB {
                name: sym(0),
                params: vec![(EbbTy::Int, sym(1))],
                body: vec![Op::Branch {
                    cond: sym(1),
                    clauses: vec![(0, sym(10), vec![])],
                    default: Some((sym(5), vec![])),
                }],
            },
            EBB {
                name: sym(5),
                params: vec![(EbbTy::Int, sym(6)), (EbbTy::Int, sym(7))],
                body: vec![Op::Ret { value: None }],
            },
        ],
        body_ty: EbbTy::Unit,
    };
    assert_eq!(t.trans_function(&f), Err(TransError::DefaultArity));
}

#[test]
fn chain_branch_on_float_discriminant_is_an_error() {
    let t = MIR2LIR::new();
    // gapped keys force the chain, which requires a 32-bit discriminant
    let f = one_block_fn(
        vec![(EbbTy::Float, sym(1))],
        vec![Op::Branch {
            cond: sym(1),
            clauses: vec![(3, sym(10), vec![])],
            default: None,
        }],
        EbbTy::Unit,
    );
    assert_eq!(t.trans_function(&f), Err(TransError::BranchCondWidth));
}

#[test]
fn oversized_projection_offset_is_an_error() {
    let t = MIR2LIR::new();
    let f = one_block_fn(
        vec![(EbbTy::Tuple(vec![]), sym(1))],
        vec![
            Op::Proj { var: sym(2), ty: EbbTy::Int, index: 536870912, tuple: sym(1) },
            Op::Ret { value: None },
        ],
        EbbTy::Unit,
    );
    assert_eq!(t.trans_function(&f), Err(TransError::SizeOverflow));
}

#[test]
fn closure_layout_sums_real_sizes_but_strides_by_eight() {
    let t = MIR2LIR::new();
    let f = one_block_fn(
        vec![(EbbTy::Int, sym(1)), (EbbTy::Float, sym(2))],
        vec![
            Op::Closure {
                var: sym(3),
                fun: sym(50),
                env: vec![(EbbTy::Int, sym(1)), (EbbTy::Float, sym(2))],
            },
            Op::Ret { value: Some(sym(3)) },
        ],
        EbbTy::Cls { param: Box::new(EbbTy::Int), ret: Box::new(EbbTy::Int) },
    );
    let g = t.trans_function(&f).unwrap();
    let rc = reg(LTy::Ptr, 2);
    // size = 8 (function slot) + 4 (I32) + 8 (F64) = 20, yet stores at 8 and 16
    assert_eq!(
        g.body[0].body,
        vec![
            lir::Op::HeapAlloc(rc, 20, vec![LTy::FPtr, LTy::I32, LTy::F64]),
            lir::Op::StoreFnPtr(addr(rc, 0), sym(50)),
            lir::Op::StoreI32(addr(rc, 8), reg(LTy::I32, 0)),
            lir::Op::StoreF64(addr(rc, 16), reg(LTy::F64, 1)),
            lir::Op::Ret(Some(rc)),
        ]
    );
    assert_eq!(g.ret_ty, LTy::Ptr);
}

#[test]
fn call_of_bound_symbol_is_indirect() {
    let t = MIR2LIR::new();
    let cls = EbbTy::Cls { param: Box::new(EbbTy::Int), ret: Box::new(EbbTy::Int) };
    let f = one_block_fn(
        vec![(cls, sym(1)), (EbbTy::Int, sym(2))],
        vec![
            Op::Call { var: sym(3), ty: EbbTy::Int, fun: sym(1), args: vec![sym(2)] },
            Op::Ret { value: Some(sym(3)) },
        ],
        EbbTy::Int,
    );
    let g = t.trans_function(&f).unwrap();
    assert_eq!(
        g.body[0].body,
        vec![
            lir::Op::ClosureCall(reg(LTy::I32, 2), reg(LTy::Ptr, 0), vec![reg(LTy::I32, 1)]),
            lir::Op::Ret(Some(reg(LTy::I32, 2))),
        ]
    );
}

#[test]
fn call_of_unknown_symbol_is_direct_by_name() {
    let t = MIR2LIR::new();
    let f = one_block_fn(
        vec![(EbbTy::Int, sym(2))],
        vec![
            Op::Call { var: sym(3), ty: EbbTy::Int, fun: sym(77), args: vec![sym(2)] },
            Op::Ret { value: Some(sym(3)) },
        ],
        EbbTy::Int,
    );
    let g = t.trans_function(&f).unwrap();
    assert_eq!(
        g.body[0].body,
        vec![
            lir::Op::FunCall(reg(LTy::I32, 1), sym(77), vec![reg(LTy::I32, 0)]),
            lir::Op::Ret(Some(reg(LTy::I32, 1))),
        ]
    );
}

#[test]
fn builtin_call_names_the_builtin() {
    let t = MIR2LIR::new();
    let f = one_block_fn(
        vec![(EbbTy::Int, sym(2))],
        vec![
            Op::BuiltinCall { var: sym(3), ty: EbbTy::Int, fun: sym(60), args: vec![sym(2)] },
            Op::Ret { value: Some(sym(3)) },
        ],
        EbbTy::Int,
    );
    let g = t.trans_function(&f).unwrap();
    assert_eq!(
        g.body[0].body,
        vec![
            lir::Op::BuiltinCall(reg(LTy::I32, 1), sym(60), vec![reg(LTy::I32, 0)]),
            lir::Op::Ret(Some(reg(LTy::I32, 1))),
        ]
    );
}

#[test]
fn jump_moves_arguments_into_target_parameters() {
    let t = MIR2LIR::new();
    let f = mir::Function {
        name: sym(100),
        body: vec![
            EBB {
                name: sym(0),
                params: vec![(EbbTy::Int, sym(1))],
                body: vec![Op::Jump { target: sym(5), args: vec![sym(1)] }],
            },
            EBB {
                name: sym(5),
                params: vec![(EbbTy::Int, sym(6))],
                body: vec![Op::Ret { value: Some(sym(6)) }],
            },
        ],
        body_ty: EbbTy::Int,
    };
    let g = t.trans_function(&f).unwrap();
    assert_eq!(
        g.body[0].body,
        vec![
            lir::Op::MoveI32(reg(LTy::I32, 1), reg(LTy::I32, 0)),
            lir::Op::Jump(Label(sym(5))),
        ]
    );
    assert_eq!(g.body[1].body, vec![lir::Op::Ret(Some(reg(LTy::I32, 1)))]);
}

#[test]
fn unit_jump_argument_moves_nothing() {
    let t = MIR2LIR::new();
    let f = mir::Function {
        name: sym(100),
        body: vec![
            EBB {
                name: sym(0),
                params: vec![(EbbTy::Unit, sym(1))],
                body: vec![Op::Jump { target: sym(5), args: vec![sym(1)] }],
            },
            EBB {
                name: sym(5),
                params: vec![(EbbTy::Unit, sym(6))],
                body: vec![Op::Ret { value: None }],
            },
        ],
        body_ty: EbbTy::Unit,
    };
    let g = t.trans_function(&f).unwrap();
    assert_eq!(g.body[0].body, vec![lir::Op::Jump(Label(sym(5)))]);
}

#[test]
fn whole_program_translates_function_by_function() {
    let t = MIR2LIR::new();
    let f1 = one_block_fn(
        vec![(EbbTy::Int, sym(1))],
        vec![Op::Ret { value: Some(sym(1)) }],
        EbbTy::Int,
    );
    let f2 = one_block_fn(vec![], vec![Op::Ret { value: None }], EbbTy::Unit);
    let out = t.trans_mir(mir::MIR(vec![f1, f2])).unwrap();
    assert_eq!(out.0.len(), 2);
    assert_eq!(out.0[0].nparams, 1);
    assert_eq!(out.0[1].nparams, 0);
    assert_eq!(out.0[1].body[0].body, vec![lir::Op::Ret(None)]);
}

#[test]
fn whole_program_stops_at_first_failing_function() {
    let t = MIR2LIR::new();
    let good = one_block_fn(vec![], vec![Op::Ret { value: None }], EbbTy::Unit);
    let bad = mir::Function { name: sym(101), body: vec![], body_ty: EbbTy::Unit };
    assert_eq!(
        t.trans_mir(mir::MIR(vec![good, bad])),
        Err(TransError::EmptyBody)
    );
}

#[test]
fn repeated_destination_symbol_keeps_first_register() {
    let t = MIR2LIR::new();
    // registration is idempotent on a repeated symbol
    let f = one_block_fn(
        vec![(EbbTy::Int, sym(1))],
        vec![
            Op::Alias { var: sym(2), ty: EbbTy::Int, sym: sym(1) },
            Op::Alias { var: sym(2), ty: EbbTy::Int, sym: sym(1) },
            Op::Ret { value: Some(sym(2)) },
        ],
        EbbTy::Int,
    );
    let g = t.trans_function(&f).unwrap();
    assert_eq!(g.regs, vec![LTy::I32, LTy::I32]);
    assert_eq!(
        g.body[0].body,
        vec![
            lir::Op::MoveI64(reg(LTy::I32, 1), reg(LTy::I32, 0)),
            lir::Op::MoveI64(reg(LTy::I32, 1), reg(LTy::I32, 0)),
            lir::Op::Ret(Some(reg(LTy::I32, 1))),
        ]
    );
}
