use sysy_ir::ast::{
    AssignExpr, AstFunc, AstTy, BinaryExpr, BinaryOp, BlockItem, BlockStmt, CallExpr, Decl, Expr,
    FuncParam, Ident, IfStmt, InitVal, InitValKind, LVal, LiteralExpr, LiteralKind, PrimitiveTy,
    Program, ProgramItem, ReturnStmt, Stmt, SubDecl, Subs, TyIdentKind, TypeIdent, UnaryExpr,
    UnaryOp, WhileStmt,
};
use sysy_ir::context::IdInfo;
use sysy_ir::err::SemanticError;
use sysy_ir::ir::arena::{BBId, FuncId, InstId, ParamId};
use sysy_ir::ir::constant::Constant;
use sysy_ir::ir::func::IrFunc;
use sysy_ir::ir::inst::{BinaryInstOp, Br, InstKind, Operand};
use sysy_ir::ir::ty::IrTy;
use sysy_ir::ir_builder::IrBuilder;
use sysy_ir::span::Span;
use sysy_ir::type_checker::TypeChecker;

fn sp(start: usize, end: usize) -> Span {
    Span { start, end }
}

fn ident(name: &str) -> Ident {
    Ident { name: name.to_string(), span: sp(0, 0) }
}

fn lit_at(value: i32, start: usize, end: usize) -> Expr {
    Expr::Literal(LiteralExpr {
        kind: LiteralKind::Integer(value),
        span: sp(start, end),
        ty: AstTy::Unknown,
    })
}

fn lit(value: i32) -> Expr {
    lit_at(value, 0, 0)
}

fn var(name: &str) -> Expr {
    Expr::LVal(LVal {
        ident: ident(name),
        subs: None,
        span: sp(0, 0),
        ty: AstTy::Unknown,
        is_lvalue: false,
    })
}

fn index(name: &str, subs: Vec<Expr>) -> Expr {
    Expr::LVal(LVal {
        ident: ident(name),
        subs: Some(Subs { subs, span: sp(0, 0) }),
        span: sp(0, 0),
        ty: AstTy::Unknown,
        is_lvalue: false,
    })
}

fn binary(op: BinaryOp, lhs: Expr, rhs: Expr) -> Expr {
    Expr::Binary(BinaryExpr {
        op,
        lhs: Box::new(lhs),
        rhs: Box::new(rhs),
        span: sp(0, 0),
        ty: AstTy::Unknown,
    })
}

fn unary(op: UnaryOp, sub_expr: Expr) -> Expr {
    Expr::Unary(UnaryExpr { op, sub_expr: Box::new(sub_expr), span: sp(0, 0), ty: AstTy::Unknown })
}

fn assign(lhs: Expr, rhs: Expr) -> Expr {
    Expr::Assign(AssignExpr {
        lhs: Box::new(lhs),
        rhs: Box::new(rhs),
        allow_assign_const: false,
        span: sp(0, 0),
        ty: AstTy::Unknown,
    })
}

fn call(name: &str, args: Vec<Expr>) -> Expr {
    Expr::Call(CallExpr { func: ident(name), args, span: sp(0, 0), ty: AstTy::Unknown })
}

fn int_ty() -> TypeIdent {
    TypeIdent { kind: TyIdentKind::Primitive(PrimitiveTy::Integer), span: sp(0, 0) }
}

fn void_ty() -> TypeIdent {
    TypeIdent { kind: TyIdentKind::Void, span: sp(0, 0) }
}

fn init_expr(e: Expr) -> InitVal {
    InitVal { ty: AstTy::Unknown, kind: InitValKind::Expr(e), span: sp(0, 0) }
}

fn init_list(vals: Vec<InitVal>) -> InitVal {
    InitVal { ty: AstTy::Unknown, kind: InitValKind::ArrayVal(vals), span: sp(0, 0) }
}

fn sub_decl(name: &str, dims: Option<Vec<Expr>>, init_val: Option<InitVal>) -> SubDecl {
    SubDecl {
        ident: ident(name),
        subs: dims.map(|subs| Subs { subs, span: sp(0, 0) }),
        init_val,
        span: sp(0, 0),
        ty: AstTy::Unknown,
    }
}

fn decl(is_const: bool, sub_decls: Vec<SubDecl>) -> Decl {
    Decl { is_const, ty_ident: int_ty(), sub_decls, span: sp(0, 0) }
}

fn block(block_items: Vec<BlockItem>) -> BlockStmt {
    BlockStmt { block_items, span: sp(0, 0) }
}

fn func(name: &str, ret: TypeIdent, params: Vec<FuncParam>, items: Vec<BlockItem>) -> AstFunc {
    AstFunc { ident: ident(name), params, ret_ty_ident: ret, body: block(items), span: sp(0, 0) }
}

fn param(name: &str, dims: Option<Vec<Expr>>) -> FuncParam {
    FuncParam {
        ident: ident(name),
        subs: dims.map(|subs| Subs { subs, span: sp(0, 0) }),
        ty_ident: int_ty(),
        ty: AstTy::Unknown,
        span: sp(0, 0),
    }
}

fn ret(val: Option<Expr>) -> Stmt {
    Stmt::Return(ReturnStmt { val: val.map(Box::new), span: sp(0, 0) })
}


fn if_stmt(cond: Expr, then_block: Stmt, else_block: Option<Stmt>) -> Stmt {
    Stmt::If(IfStmt {
        cond: Box::new(cond),
        then_block: Box::new(then_block),
        else_block: else_block.map(Box::new),
        span: sp(0, 0),
    })
}

fn while_stmt(cond: Expr, body: Stmt) -> Stmt {
    Stmt::While(WhileStmt { cond: Box::new(cond), body: Box::new(body), span: sp(0, 0) })
}

fn stmts(items: Vec<Stmt>) -> Stmt {
    Stmt::Block(block(items.into_iter().map(BlockItem::Stmt).collect()))
}

/// Checks the program, then lowers it.
fn lower(mut program: Program) -> Result<IrBuilder, SemanticError> {
    TypeChecker::new().visit_program(&mut program)?;
    let mut builder = IrBuilder::new();
    builder.visit(&program)?;
    Ok(builder)
}

fn one_func(name: &str, ret: TypeIdent, params: Vec<FuncParam>, items: Vec<BlockItem>) -> Program {
    Program { program_items: vec![ProgramItem::Func(func(name, ret, params, items))] }
}

/// The function that was lowered last.
fn last_func(builder: &IrBuilder) -> &IrFunc {
    builder.ctx.cur_module.funcs.last().unwrap()
}

fn kinds_of_block(f: &IrFunc, bb: usize) -> Vec<&InstKind> {
    f.blocks[bb].insts.iter().map(|id| &f.insts[id.0].kind).collect()
}

fn is_terminator(kind: &InstKind) -> bool {
    matches!(kind, InstKind::Br(_) | InstKind::RetInst(_))
}

fn assert_well_formed(f: &IrFunc) {
    for bb in 0..f.blocks.len() {
        let kinds = kinds_of_block(f, bb);
        assert!(!kinds.is_empty(), "block {bb} is empty");
        let (last, rest) = kinds.split_last().unwrap();
        assert!(is_terminator(last), "block {bb} does not end in a terminator");
        assert!(rest.iter().all(|k| !is_terminator(k)), "block {bb} holds two terminators");
        match last {
            InstKind::Br(Br::Br { true_bb, false_bb, .. }) => {
                assert!(true_bb.0 < f.blocks.len() && false_bb.0 < f.blocks.len());
            }
            InstKind::Br(Br::Jump { nxt_bb }) => assert!(nxt_bb.0 < f.blocks.len()),
            _ => {}
        }
    }
    let mut order: Vec<usize> = f.order.iter().map(|bb| bb.0).collect();
    order.sort();
    assert_eq!(order, (0..f.blocks.len()).collect::<Vec<_>>());
}

fn is_zero(op: &Operand) -> bool {
    matches!(op, Operand::Const(Constant::Int(0)))
}

#[test]
fn break_outside_a_loop_is_an_error() {
    let program = one_func("f", void_ty(), vec![], vec![BlockItem::Stmt(Stmt::Break(sp(0, 0)))]);
    assert!(matches!(lower(program), Err(SemanticError::BreakOutsideLoop)));
    let nested = one_func(
        "f",
        void_ty(),
        vec![],
        vec![BlockItem::Stmt(if_stmt(
            binary(BinaryOp::Lt, lit(1), lit(2)),
            stmts(vec![Stmt::Break(sp(0, 0))]),
            None,
        ))],
    );
    assert!(matches!(lower(nested), Err(SemanticError::BreakOutsideLoop)));
}

#[test]
fn break_or_continue_outside_a_loop_leaves_the_builder_as_it_was() {
    let mut builder = IrBuilder::new();
    builder.ctx.scope_builder.push_scope();
    let f = builder.ctx.build_func(IrFunc::new("f", IrTy::Void, false));
    builder.ctx.set_cur_func(f);
    let entry = builder.ctx.build_bb();
    builder.ctx.set_cur_bb(entry);
    let before = format!("{:?}", builder.ctx.cur_module.funcs);
    assert!(matches!(builder.visit_break_stmt(sp(0, 0)), Err(SemanticError::BreakOutsideLoop)));
    assert!(matches!(builder.visit_continue_stmt(sp(0, 0)), Err(SemanticError::ContinueOutsideLoop)));
    assert_eq!(format!("{:?}", builder.ctx.cur_module.funcs), before);
    assert_eq!(builder.ctx.get_cur_bb_id(), entry);
    assert!(builder.loop_targets.is_empty());

    builder.push_break_target(entry, entry);
    builder.visit_break_stmt(sp(0, 0)).unwrap();
    let f = last_func(&builder);
    assert_eq!(f.blocks.len(), 2);
    assert!(matches!(
        kinds_of_block(f, 0)[..],
        [InstKind::Br(Br::Jump { nxt_bb })] if *nxt_bb == entry
    ));
    assert_eq!(builder.ctx.get_cur_bb_id(), BBId(1));
}

#[test]
fn continue_outside_a_loop_is_an_error() {
    let program = one_func("f", void_ty(), vec![], vec![BlockItem::Stmt(Stmt::Continue(sp(0, 0)))]);
    assert!(matches!(lower(program), Err(SemanticError::ContinueOutsideLoop)));
    let after = one_func(
        "f",
        void_ty(),
        vec![],
        vec![
            BlockItem::Stmt(while_stmt(binary(BinaryOp::Lt, lit(1), lit(2)), Stmt::Continue(sp(0, 0)))),
            BlockItem::Stmt(Stmt::Continue(sp(0, 0))),
        ],
    );
    assert!(matches!(lower(after), Err(SemanticError::ContinueOutsideLoop)));
}

#[test]
fn pointer_parameter_is_indexed_without_leading_zero() {
    let program = one_func(
        "f",
        int_ty(),
        vec![param("a", Some(vec![]))],
        vec![BlockItem::Stmt(ret(Some(index("a", vec![lit(0)]))))],
    );
    let builder = lower(program).unwrap();
    let f = last_func(&builder);
    assert_eq!(f.params.len(), 1);
    assert!(matches!(&f.params[0].ty, IrTy::Ptr(elem) if matches!(**elem, IrTy::Int(32))));
    let kinds = kinds_of_block(f, 0);
    assert_eq!(kinds.len(), 3);
    let InstKind::GEP(gep) = kinds[0] else { panic!("expected an address computation") };
    assert!(matches!(gep.ptr, Operand::Param(ParamId(0))));
    assert_eq!(gep.indices.len(), 1);
    assert!(is_zero(&gep.indices[0]));
    let InstKind::Load(load) = kinds[1] else { panic!("expected a load") };
    assert!(matches!(load.addr, Operand::Inst(InstId(0))));
    assert!(matches!(f.insts[1].ty, IrTy::Int(32)));
    assert!(matches!(kinds[2], InstKind::RetInst(r) if matches!(r.val, Some(Operand::Inst(InstId(1))))));
    assert_well_formed(f);
}

#[test]
fn local_array_is_indexed_with_leading_zero() {
    let program = one_func(
        "f",
        int_ty(),
        vec![],
        vec![
            BlockItem::Decl(decl(false, vec![sub_decl("a", Some(vec![lit(4)]), None)])),
            BlockItem::Stmt(ret(Some(index("a", vec![lit(2)])))),
        ],
    );
    let builder = lower(program).unwrap();
    let f = last_func(&builder);
    let kinds = kinds_of_block(f, 0);
    assert!(matches!(kinds[0], InstKind::Alloca(a) if matches!(&a.alloca_ty, IrTy::Array(4, _))));
    let InstKind::GEP(gep) = kinds[1] else { panic!() };
    assert!(matches!(gep.ptr, Operand::Inst(InstId(0))));
    assert_eq!(gep.indices.len(), 2);
    assert!(is_zero(&gep.indices[0]));
    assert!(matches!(gep.indices[1], Operand::Const(Constant::Int(2))));
    assert!(matches!(kinds[2], InstKind::Load(_)));
}

#[test]
fn if_without_else_makes_three_blocks() {
    let program = one_func(
        "f",
        void_ty(),
        vec![param("x", None)],
        vec![BlockItem::Stmt(if_stmt(
            binary(BinaryOp::Lt, var("x"), lit(1)),
            Stmt::Expr(call("putint", vec![var("x")])),
            None,
        ))],
    );
    let builder = lower(program).unwrap();
    let f = last_func(&builder);
    assert_eq!(f.blocks.len(), 3);
    let origin = kinds_of_block(f, 0);
    let InstKind::Br(Br::Br { true_bb, false_bb, .. }) = origin.last().unwrap() else { panic!() };
    assert_eq!(*true_bb, BBId(1));
    assert_eq!(*false_bb, BBId(2));
    let then_block = kinds_of_block(f, 1);
    assert!(matches!(then_block.last().unwrap(), InstKind::Br(Br::Jump { nxt_bb }) if *nxt_bb == BBId(2)));
    let next = kinds_of_block(f, 2);
    assert_eq!(next.len(), 1);
    assert!(matches!(next[0], InstKind::RetInst(r) if r.val.is_none()));
    assert_eq!(f.order, vec![BBId(0), BBId(1), BBId(2)]);
    assert_well_formed(f);
}

#[test]
fn if_with_else_branches_to_both() {
    let program = one_func(
        "f",
        int_ty(),
        vec![param("x", None)],
        vec![BlockItem::Stmt(if_stmt(
            binary(BinaryOp::Lt, var("x"), lit(1)),
            ret(Some(lit(1))),
            Some(ret(Some(lit(2)))),
        ))],
    );
    let builder = lower(program).unwrap();
    let f = last_func(&builder);
    let origin = kinds_of_block(f, 0);
    let InstKind::Br(Br::Br { true_bb, false_bb, .. }) = origin.last().unwrap() else { panic!() };
    assert_eq!(*true_bb, BBId(1));
    assert!(matches!(kinds_of_block(f, 1).last().unwrap(), InstKind::RetInst(_)));
    assert!(matches!(kinds_of_block(f, false_bb.0).last().unwrap(), InstKind::RetInst(_)));
    let last = kinds_of_block(f, f.blocks.len() - 1);
    assert!(matches!(last[0], InstKind::RetInst(r) if matches!(r.val, Some(Operand::Const(Constant::Int(0))))));
    assert_well_formed(f);
}

#[test]
fn while_loops_back_and_break_leaves() {
    let body = stmts(vec![
        if_stmt(binary(BinaryOp::Eq, var("n"), lit(3)), Stmt::Break(sp(0, 0)), None),
        if_stmt(binary(BinaryOp::Eq, var("n"), lit(5)), Stmt::Continue(sp(0, 0)), None),
        Stmt::Expr(assign(var("n"), binary(BinaryOp::Sub, var("n"), lit(1)))),
    ]);
    let program = one_func(
        "f",
        int_ty(),
        vec![param("n", None)],
        vec![
            BlockItem::Stmt(while_stmt(binary(BinaryOp::Gt, var("n"), lit(0)), body)),
            BlockItem::Stmt(ret(Some(var("n")))),
        ],
    );
    let builder = lower(program).unwrap();
    let f = last_func(&builder);
    assert_well_formed(f);
    let origin = kinds_of_block(f, 0);
    assert!(matches!(origin.last().unwrap(), InstKind::Br(Br::Jump { nxt_bb }) if *nxt_bb == BBId(1)));
    let cond = kinds_of_block(f, 1);
    let InstKind::Br(Br::Br { true_bb, false_bb, .. }) = cond.last().unwrap() else { panic!() };
    assert_eq!(*true_bb, BBId(2));
    assert_eq!(*false_bb, BBId(3));
    let jumps = |target: usize| {
        (0..f.blocks.len())
            .filter(|bb| {
                matches!(kinds_of_block(f, *bb).last().unwrap(), InstKind::Br(Br::Jump { nxt_bb }) if nxt_bb.0 == target)
            })
            .count()
    };
    let place = |bb: usize| f.order.iter().position(|b| b.0 == bb).unwrap();
    assert!(place(0) < place(1) && place(1) < place(2) && place(2) < place(3));
    let after_return = f.blocks.len() - 1;
    assert!(
        (4..after_return).all(|bb| place(2) < place(bb) && place(bb) < place(3)),
        "every block of the body lies between its first and the block after the loop"
    );
    assert_eq!(place(after_return), place(3) + 1);
    assert!(jumps(3) >= 1, "break jumps to the block after the loop");
    assert!(jumps(1) >= 3, "entry, continue and the end of the body jump to the condition");
    for module_func in &builder.ctx.cur_module.funcs {
        assert_well_formed(module_func);
    }
}

#[test]
fn statements_after_return_stay_well_formed() {
    let program = one_func(
        "f",
        int_ty(),
        vec![],
        vec![
            BlockItem::Stmt(ret(Some(lit(1)))),
            BlockItem::Stmt(Stmt::Expr(call("putint", vec![lit(2)]))),
            BlockItem::Stmt(ret(None.or(Some(lit(3))))),
        ],
    );
    let builder = lower(program).unwrap();
    let f = last_func(&builder);
    assert_eq!(f.blocks.len(), 3);
    assert_well_formed(f);
}

#[test]
fn array_argument_is_passed_as_pointer_to_first_element() {
    let program = one_func(
        "f",
        void_ty(),
        vec![param("p", Some(vec![]))],
        vec![
            BlockItem::Decl(decl(false, vec![sub_decl("a", Some(vec![lit(4)]), None)])),
            BlockItem::Stmt(Stmt::Expr(call("putarray", vec![lit(4), var("a")]))),
            BlockItem::Stmt(Stmt::Expr(call("putarray", vec![lit(1), var("p")]))),
        ],
    );
    let builder = lower(program).unwrap();
    let f = last_func(&builder);
    for inst in &f.insts {
        if let InstKind::Load(_) = inst.kind {
            assert!(!matches!(inst.ty, IrTy::Array(..)), "an array is never loaded");
        }
    }
    let calls: Vec<_> = f
        .insts
        .iter()
        .filter_map(|inst| match &inst.kind {
            InstKind::Call(c) => Some(c),
            _ => None,
        })
        .collect();
    assert_eq!(calls.len(), 2);
    assert_eq!(calls[0].func_id, FuncId(5));
    let Operand::Inst(decayed) = &calls[0].args[1] else { panic!("expected an address") };
    let InstKind::GEP(gep) = &f.insts[decayed.0].kind else { panic!("expected an address computation") };
    assert_eq!(gep.indices.len(), 2);
    assert!(is_zero(&gep.indices[0]) && is_zero(&gep.indices[1]));
    assert!(matches!(gep.ptr, Operand::Inst(InstId(0))));
    assert!(matches!(&f.insts[decayed.0].ty, IrTy::Ptr(elem) if matches!(**elem, IrTy::Int(32))));
    let Operand::Inst(loaded) = &calls[1].args[1] else { panic!() };
    assert!(matches!(&f.insts[loaded.0].kind, InstKind::Load(l) if matches!(l.addr, Operand::Param(ParamId(0)))));
    assert!(matches!(&f.insts[loaded.0].ty, IrTy::Ptr(_)));
}

#[test]
fn scalar_parameter_is_stored_on_the_stack() {
    let program = one_func(
        "f",
        int_ty(),
        vec![param("n", None)],
        vec![BlockItem::Stmt(ret(Some(var("n"))))],
    );
    let builder = lower(program).unwrap();
    let f = last_func(&builder);
    let kinds = kinds_of_block(f, 0);
    assert!(matches!(kinds[0], InstKind::Alloca(a) if matches!(a.alloca_ty, IrTy::Int(32))));
    assert!(matches!(&f.insts[0].ty, IrTy::Ptr(_)));
    let InstKind::Store(store) = kinds[1] else { panic!() };
    assert!(matches!(store.addr, Operand::Inst(InstId(0))));
    assert!(matches!(store.data, Operand::Param(ParamId(0))));
    assert!(matches!(kinds[2], InstKind::Load(l) if matches!(l.addr, Operand::Inst(InstId(0)))));
    assert!(matches!(builder.ctx.scope_builder.find_name_rec("n"), None));
}

#[test]
fn implicit_return_ends_every_function() {
    let program = Program {
        program_items: vec![
            ProgramItem::Func(func("v", void_ty(), vec![], vec![])),
            ProgramItem::Func(func("i", int_ty(), vec![], vec![])),
        ],
    };
    let builder = lower(program).unwrap();
    let funcs = &builder.ctx.cur_module.funcs;
    assert_eq!(funcs.len(), 8);
    assert!(matches!(&funcs[6].insts[0].kind, InstKind::RetInst(r) if r.val.is_none()));
    assert!(matches!(&funcs[7].insts[0].kind, InstKind::RetInst(r) if matches!(r.val, Some(Operand::Const(Constant::Int(0))))));
    assert_eq!(funcs[6].name, "v");
    assert!(!funcs[6].is_builtin);
    assert!(matches!(funcs[7].ty.ret_ty, IrTy::Int(32)));
}

#[test]
fn runtime_library_is_declared_first() {
    let builder = lower(Program { program_items: vec![] }).unwrap();
    let funcs = &builder.ctx.cur_module.funcs;
    let names: Vec<&str> = funcs.iter().map(|f| f.name.as_str()).collect();
    assert_eq!(names, vec!["getint", "getch", "getarray", "putint", "putch", "putarray"]);
    assert!(funcs.iter().all(|f| f.is_builtin && f.blocks.is_empty()));
    assert!(matches!(funcs[0].ty.ret_ty, IrTy::Int(32)));
    assert!(funcs[0].ty.params_ty.is_empty());
    assert!(matches!(&funcs[2].ty.params_ty[..], [IrTy::Ptr(elem)] if matches!(**elem, IrTy::Int(32))));
    assert!(matches!(funcs[3].ty.ret_ty, IrTy::Void));
    assert!(matches!(&funcs[3].ty.params_ty[..], [IrTy::Int(32)]));
    assert!(matches!(&funcs[5].ty.params_ty[..], [IrTy::Int(32), IrTy::Ptr(_)]));
    assert_eq!(funcs[5].params.len(), 2);
}

#[test]
fn globals_start_with_their_constant_or_zero() {
    let program = Program {
        program_items: vec![
            ProgramItem::Decl(decl(false, vec![sub_decl("g", None, None)])),
            ProgramItem::Decl(decl(true, vec![sub_decl("k", None, Some(init_expr(lit(9))))])),
            ProgramItem::Decl(decl(
                false,
                vec![sub_decl(
                    "a",
                    Some(vec![lit(3)]),
                    Some(init_list(vec![init_expr(lit(1)), init_expr(lit(2))])),
                )],
            )),
            ProgramItem::Decl(decl(false, vec![sub_decl("z", Some(vec![lit(2)]), None)])),
            ProgramItem::Func(func("f", int_ty(), vec![], vec![BlockItem::Stmt(ret(Some(var("g"))))])),
        ],
    };
    let builder = lower(program).unwrap();
    let globals = &builder.ctx.cur_module.globals;
    assert_eq!(globals.len(), 4);
    assert_eq!(globals[0].name, "g");
    assert!(matches!(&globals[0].ty, IrTy::Ptr(elem) if matches!(**elem, IrTy::Int(32))));
    assert!(matches!(globals[0].init, Constant::Int(0)));
    assert!(matches!(globals[1].init, Constant::Int(9)));
    let Constant::Array { ty, elems } = &globals[2].init else { panic!() };
    assert!(matches!(ty, IrTy::Array(3, _)));
    assert!(matches!(&elems[..], [Constant::Int(1), Constant::Int(2), Constant::Int(0)]));
    let Constant::Array { ty, elems } = &globals[3].init else { panic!() };
    assert!(matches!(ty, IrTy::Array(2, _)));
    assert!(matches!(&elems[..], [Constant::Int(0), Constant::Int(0)]));
    let f = last_func(&builder);
    assert!(matches!(&f.insts[0].kind, InstKind::Load(l) if matches!(l.addr, Operand::Global(id) if id.0 == 0)));
}

#[test]
fn local_initializers_are_stored_element_by_element() {
    let program = one_func(
        "f",
        void_ty(),
        vec![],
        vec![BlockItem::Decl(decl(
            false,
            vec![sub_decl(
                "a",
                Some(vec![lit(2)]),
                Some(init_list(vec![init_expr(lit(7)), init_expr(lit(8))])),
            )],
        ))],
    );
    let builder = lower(program).unwrap();
    let f = last_func(&builder);
    let kinds = kinds_of_block(f, 0);
    assert_eq!(kinds.len(), 6);
    assert!(matches!(kinds[0], InstKind::Alloca(_)));
    let InstKind::GEP(second) = kinds[3] else { panic!() };
    assert!(matches!(second.ptr, Operand::Inst(InstId(0))));
    assert!(is_zero(&second.indices[0]));
    assert!(matches!(second.indices[1], Operand::Const(Constant::Int(1))));
    let InstKind::Store(store) = kinds[4] else { panic!() };
    assert!(matches!(store.addr, Operand::Inst(InstId(3))));
    assert!(matches!(store.data, Operand::Const(Constant::Int(8))));
}

#[test]
fn operators_lower_to_instructions() {
    let program = one_func(
        "f",
        int_ty(),
        vec![param("x", None)],
        vec![
            BlockItem::Stmt(Stmt::Expr(unary(UnaryOp::Neg, var("x")))),
            BlockItem::Stmt(Stmt::Expr(unary(UnaryOp::Not, binary(BinaryOp::Lt, var("x"), lit(1))))),
            BlockItem::Stmt(ret(Some(binary(BinaryOp::Mod, var("x"), lit(3))))),
        ],
    );
    let builder = lower(program).unwrap();
    let f = last_func(&builder);
    let binaries: Vec<_> = f
        .insts
        .iter()
        .filter_map(|inst| match &inst.kind {
            InstKind::Binary(b) => Some((b, &inst.ty)),
            _ => None,
        })
        .collect();
    assert_eq!(binaries.len(), 4);
    assert_eq!(binaries[0].0.op, BinaryInstOp::Sub);
    assert!(is_zero(&binaries[0].0.left));
    assert_eq!(binaries[1].0.op, BinaryInstOp::Lt);
    assert!(matches!(binaries[1].1, IrTy::Int(1)));
    assert_eq!(binaries[2].0.op, BinaryInstOp::Eq);
    assert!(is_zero(&binaries[2].0.right));
    assert!(matches!(binaries[2].1, IrTy::Int(1)));
    assert_eq!(binaries[3].0.op, BinaryInstOp::Mod);
    assert!(matches!(binaries[3].1, IrTy::Int(32)));
    let widened = f.insts.iter().filter(|inst| matches!(&inst.kind, InstKind::ZExt(z) if matches!(z.target_ty, IrTy::Int(32)))).count();
    assert_eq!(widened, 1);
}

#[test]
fn names_resolve_innermost_first_in_the_builder() {
    let mut builder = IrBuilder::new();
    builder.ctx.scope_builder.push_scope();
    builder.bind("v", IdInfo::Global(sysy_ir::ir::arena::GlobalId(0)));
    builder.ctx.scope_builder.push_scope();
    builder.bind("v", IdInfo::Inst(InstId(3)));
    builder.bind("v", IdInfo::Inst(InstId(4)));
    assert_eq!(builder.ctx.scope_builder.find_name_rec("v"), Some(&IdInfo::Inst(InstId(3))));
    builder.ctx.scope_builder.pop_scope();
    assert!(matches!(builder.ctx.scope_builder.find_name_rec("v"), Some(IdInfo::Global(_))));
}

#[test]
fn while_lays_its_blocks_in_the_order_of_the_source() {
    let program = one_func(
        "f",
        void_ty(),
        vec![param("n", None)],
        vec![BlockItem::Stmt(while_stmt(
            binary(BinaryOp::Gt, var("n"), lit(0)),
            Stmt::Expr(assign(var("n"), binary(BinaryOp::Sub, var("n"), lit(1)))),
        ))],
    );
    let builder = lower(program).unwrap();
    let f = last_func(&builder);
    assert_eq!(f.blocks.len(), 4);
    assert_eq!(f.order, vec![BBId(0), BBId(1), BBId(2), BBId(3)]);
    assert!(matches!(kinds_of_block(f, 2).last().unwrap(), InstKind::Br(Br::Jump { nxt_bb }) if *nxt_bb == BBId(1)));
    assert!(matches!(kinds_of_block(f, 3)[0], InstKind::RetInst(r) if r.val.is_none()));
    assert_well_formed(f);
}

#[test]
fn a_checked_program_can_be_lowered_into_a_module_of_its_own() {
    let mut program = Program {
        program_items: vec![
            ProgramItem::Decl(decl(
                true,
                vec![sub_decl(
                    "a",
                    Some(vec![lit(3)]),
                    Some(init_list(vec![init_expr(lit(1)), init_expr(lit(2))])),
                )],
            )),
            ProgramItem::Func(func(
                "main",
                int_ty(),
                vec![],
                vec![
                    BlockItem::Decl(decl(false, vec![sub_decl("x", None, Some(init_expr(lit(4))))])),
                    BlockItem::Stmt(while_stmt(
                        binary(BinaryOp::Lt, var("x"), lit(9)),
                        stmts(vec![
                            Stmt::Expr(assign(var("x"), binary(BinaryOp::Add, var("x"), index("a", vec![lit(2)])))),
                            Stmt::Expr(call("putint", vec![var("x")])),
                        ]),
                    )),
                    BlockItem::Stmt(ret(Some(var("x")))),
                ],
            )),
        ],
    };
    assert!(!IrBuilder::can_lower(&program));
    assert!(IrBuilder::build(&program).is_none());
    TypeChecker::new().visit_program(&mut program).unwrap();
    assert!(IrBuilder::can_lower(&program));
    let module = IrBuilder::build(&program).unwrap().unwrap();
    assert_eq!(module.funcs.len(), 7);
    assert_eq!(module.globals.len(), 1);
    let Constant::Array { elems, .. } = &module.globals[0].init else { panic!() };
    assert!(matches!(&elems[..], [Constant::Int(1), Constant::Int(2), Constant::Int(0)]));
    let main = module.funcs.last().unwrap();
    assert_eq!(main.name, "main");
    assert_well_formed(main);
    for f in &module.funcs {
        assert_eq!(f.ty.params_ty.len(), f.params.len());
        for (sig, param) in f.ty.params_ty.iter().zip(f.params.iter()) {
            assert_eq!(format!("{:?}", sig), format!("{:?}", param.ty));
        }
    }
}

#[test]
fn a_program_that_cannot_be_lowered_is_told_apart() {
    let name_as_value = {
        let mut program = one_func(
            "f",
            void_ty(),
            vec![],
            vec![BlockItem::Stmt(Stmt::Expr(var("f")))],
        );
        TypeChecker::new().visit_program(&mut program).unwrap();
        program
    };
    assert!(!IrBuilder::can_lower(&name_as_value));
    assert!(IrBuilder::build(&name_as_value).is_none());

    let mut stray = one_func("f", void_ty(), vec![], vec![BlockItem::Stmt(Stmt::Break(sp(0, 0)))]);
    TypeChecker::new().visit_program(&mut stray).unwrap();
    assert!(IrBuilder::can_lower(&stray));
    assert!(matches!(IrBuilder::build(&stray), Some(Err(SemanticError::BreakOutsideLoop))));

    let mut shadow = one_func(
        "f",
        int_ty(),
        vec![param("n", None)],
        vec![
            BlockItem::Stmt(stmts(vec![Stmt::Expr(var("n"))])),
            BlockItem::Decl(decl(false, vec![sub_decl("f", None, Some(init_expr(var("n"))))])),
            BlockItem::Stmt(ret(Some(var("f")))),
        ],
    );
    TypeChecker::new().visit_program(&mut shadow).unwrap();
    assert!(IrBuilder::can_lower(&shadow));
    assert!(matches!(IrBuilder::build(&shadow), Some(Ok(_))));
}
