use sysy_ir::ast::{
    AstTy, BinaryExpr, BinaryOp, BlockItem, CallExpr, Expr, Ident, LiteralExpr, LiteralKind,
    PrimitiveTy, ReturnStmt, Stmt, TyIdentKind, UnaryOp,
};
use sysy_ir::context::{Context, IdInfo};
use sysy_ir::ir::arena::{BBId, FuncId, InstId};
use sysy_ir::ir::constant::Constant;
use sysy_ir::ir::func::IrFunc;
use sysy_ir::ir::inst::{Br, InstKind, Operand, RetInst};
use sysy_ir::ir::module::Global;
use sysy_ir::ir::ty::IrTy;
use sysy_ir::scope::{Scope, ScopeBuilder};
use sysy_ir::span::Span;
use sysy_ir::token::TokenType;

fn int_lit(value: i32, start: usize, end: usize) -> LiteralExpr {
    LiteralExpr { kind: LiteralKind::Integer(value), span: Span { start, end }, ty: AstTy::Int }
}

#[test]
fn scope_refuses_a_second_binding() {
    let mut scope: Scope<u32> = Scope::new();
    assert_eq!(scope.find("a"), None);
    assert_eq!(scope.insert("a".to_string(), 1), Some(&1));
    assert_eq!(scope.insert("a".to_string(), 2), None);
    assert_eq!(scope.find("a"), Some(&1));
}

#[test]
fn inner_scope_shadows_outer() {
    let mut scopes: ScopeBuilder<u32> = ScopeBuilder::new();
    scopes.push_scope();
    assert_eq!(scopes.insert("x", 1), Some(&1));
    scopes.push_scope();
    assert_eq!(scopes.find_name_rec("x"), Some(&1));
    assert_eq!(scopes.insert("x", 2), Some(&2));
    assert_eq!(scopes.find_name_rec("x"), Some(&2));
    assert_eq!(scopes.insert("x", 3), None);
    assert_eq!(scopes.find_name_rec("x"), Some(&2));
    scopes.pop_scope();
    assert_eq!(scopes.find_name_rec("x"), Some(&1));
    assert_eq!(scopes.find_name_rec("y"), None);
}

#[test]
fn sibling_scopes_do_not_clash() {
    let mut scopes: ScopeBuilder<u32> = ScopeBuilder::new();
    scopes.push_scope();
    scopes.push_scope();
    assert_eq!(scopes.insert("t", 1), Some(&1));
    scopes.pop_scope();
    assert_eq!(scopes.find_name_rec("t"), None);
    scopes.push_scope();
    assert_eq!(scopes.insert("t", 2), Some(&2));
    scopes.pop_scope();
    scopes.pop_scope();
    scopes.pop_scope();
    assert_eq!(scopes.find_name_rec("t"), None);
}

#[test]
fn pointer_and_array_are_equal_on_their_element() {
    let int_ptr = AstTy::Ptr(Box::new(AstTy::Int));
    let arr3 = AstTy::Array { siz: 3, elem_ty: Box::new(AstTy::Int) };
    let arr4 = AstTy::Array { siz: 4, elem_ty: Box::new(AstTy::Int) };
    assert_eq!(int_ptr, arr3);
    assert_eq!(arr4, int_ptr);
    assert_ne!(arr3, arr4);
    assert_ne!(int_ptr, AstTy::Ptr(Box::new(AstTy::Bool)));
    assert_ne!(AstTy::Int, AstTy::Bool);
    assert_eq!(AstTy::Unknown, AstTy::Unknown);
    let f = |params: Vec<AstTy>| AstTy::Func { ret_ty: Box::new(AstTy::Int), param_tys: params };
    assert_eq!(f(vec![arr3.clone()]), f(vec![int_ptr.clone()]));
    assert_ne!(f(vec![AstTy::Int]), f(vec![]));
    assert_ne!(f(vec![AstTy::Int]), f(vec![AstTy::Bool]));
    assert_eq!(arr3.clone(), arr3);
}

#[test]
fn nodes_give_their_span_and_type() {
    let literal = int_lit(4, 2, 3);
    assert_eq!(literal.get_int(), Some(4));
    let array = LiteralExpr {
        kind: LiteralKind::Array(2, vec![int_lit(1, 0, 1)]),
        span: Span { start: 0, end: 5 },
        ty: AstTy::Unknown,
    };
    assert_eq!(array.get_int(), None);
    assert_eq!(array.clone().kind.as_integer(), None);
    let expr = Expr::Literal(literal);
    assert_eq!(expr.span(), Span { start: 2, end: 3 });
    assert_eq!(expr.ty(), AstTy::Int);
    assert!(expr.as_literal().is_some());
    assert!(expr.as_l_val().is_none());
    let stmt = Stmt::Break(Span { start: 7, end: 9 });
    assert_eq!(stmt.span(), Span { start: 7, end: 9 });
    let mut item = BlockItem::Stmt(Stmt::Expr(expr));
    assert_eq!(item.span(), Span { start: 2, end: 3 });
}

#[test]
fn tokens_know_their_operators() {
    assert!(TokenType::Plus.is_binary_op());
    assert!(TokenType::Assign.is_binary_op());
    assert!(TokenType::Not.is_binary_op());
    assert!(!TokenType::LParen.is_binary_op());
    assert_eq!(TokenType::Mul.prec(), 20);
    assert_eq!(TokenType::Div.prec(), 20);
    assert_eq!(TokenType::Plus.prec(), 10);
    assert_eq!(TokenType::Mod.prec(), 10);
    assert_eq!(TokenType::Le.prec(), 5);
    assert_eq!(TokenType::Ne.prec(), 4);
    assert_eq!(TokenType::And.prec(), 3);
    assert_eq!(TokenType::Or.prec(), 2);
    assert_eq!(TokenType::Assign.prec(), 1);
    assert!(TokenType::Minus.is_left_assoc());
    assert!(!TokenType::Assign.is_left_assoc());
    assert_eq!(TokenType::Minus.to_binary_op(), Some(BinaryOp::Sub));
    assert_eq!(TokenType::Ge.to_binary_op(), Some(BinaryOp::Ge));
    assert_eq!(TokenType::Not.to_binary_op(), None);
    assert_eq!(TokenType::Minus.to_unary_op(), Some(UnaryOp::Neg));
    assert_eq!(TokenType::Plus.to_unary_op(), Some(UnaryOp::Pos));
    assert_eq!(TokenType::Not.to_unary_op(), Some(UnaryOp::Not));
    assert_eq!(TokenType::Mul.to_unary_op(), None);
    assert!(TokenType::Not.is_unary_op());
    assert!(!TokenType::Mul.is_unary_op());
    assert_eq!(TokenType::IntTy.to_ty_ident(), Some(TyIdentKind::Primitive(PrimitiveTy::Integer)));
    assert_eq!(TokenType::VoidTy.to_ty_ident(), Some(TyIdentKind::Void));
    assert_eq!(TokenType::Ident.to_ty_ident(), None);
    assert!(TokenType::VoidTy.is_ty());
    assert!(!TokenType::If.is_ty());
}

#[test]
fn types_and_constants_lower() {
    let arr = AstTy::Array { siz: 2, elem_ty: Box::new(AstTy::Bool) };
    let lowered = IrTy::from_ast(&AstTy::Ptr(Box::new(arr)));
    let IrTy::Ptr(inner) = &lowered else { panic!() };
    assert!(matches!(&**inner, IrTy::Array(2, elem) if matches!(**elem, IrTy::Int(1))));
    assert!(matches!(IrTy::from_ast(&AstTy::Int), IrTy::Int(32)));
    assert!(matches!(IrTy::from_ast(&AstTy::Void), IrTy::Void));
    let func = IrTy::from_ast(&AstTy::Func { ret_ty: Box::new(AstTy::Void), param_tys: vec![AstTy::Int] });
    let sig = func.as_func().unwrap();
    assert!(matches!(sig.ret_ty, IrTy::Void));
    assert!(matches!(&sig.params_ty[..], [IrTy::Int(32)]));
    assert!(func.as_array().is_none());
    assert!(matches!(IrTy::ptr_of(&IrTy::int32()), IrTy::Ptr(elem) if matches!(*elem, IrTy::Int(32))));
    assert!(matches!(IrTy::int1(), IrTy::Int(1)));
    assert!(matches!(Constant::build_zero(&IrTy::Int(32)), Constant::Int(0)));
    let zeros = Constant::build_zero(&IrTy::Array(3, Box::new(IrTy::Int(32))));
    assert!(matches!(
        &zeros,
        Constant::Array { ty: IrTy::Array(3, _), elems }
            if matches!(&elems[..], [Constant::Int(0), Constant::Int(0), Constant::Int(0)])
    ));
    let rows = Constant::build_zero(&IrTy::Array(2, Box::new(IrTy::Array(1, Box::new(IrTy::Int(32))))));
    let Constant::Array { elems, .. } = &rows else { panic!() };
    assert_eq!(elems.len(), 2);
    assert!(elems.iter().all(|row| matches!(
        row,
        Constant::Array { ty: IrTy::Array(1, _), elems } if matches!(&elems[..], [Constant::Int(0)])
    )));
    let literal = LiteralExpr {
        kind: LiteralKind::Array(2, vec![int_lit(5, 0, 1)]),
        span: Span { start: 0, end: 1 },
        ty: AstTy::Array { siz: 2, elem_ty: Box::new(AstTy::Int) },
    };
    let Constant::Array { ty, elems } = Constant::from_literal(&literal) else { panic!() };
    assert!(matches!(ty, IrTy::Array(2, _)));
    assert!(matches!(&elems[..], [Constant::Int(5)]));
    assert!(matches!(Constant::from_i32(3).clone(), Constant::Int(3)));
    assert_eq!(BinaryOp::Le.to_binary_inst_kind(), sysy_ir::ir::inst::BinaryInstOp::Le);
    assert!(matches!(Operand::from_id(IdInfo::Inst(InstId(2))), Operand::Inst(InstId(2))));
    assert_eq!(IdInfo::Func(FuncId(1)).as_func(), Some(&FuncId(1)));
    assert_eq!(IdInfo::Inst(InstId(1)).as_func(), None);
}

#[test]
fn blocks_are_laid_out_after_the_cursor() {
    let mut f = IrFunc::new("f", IrTy::Void, false);
    let entry = f.build_bb();
    let a = f.build_bb_after_cur(entry);
    let b = f.build_bb_after_cur(entry);
    let c = f.build_bb();
    assert_eq!((entry, a, b, c), (BBId(0), BBId(1), BBId(2), BBId(3)));
    assert_eq!(f.order, vec![entry, b, a, c]);
    f.set_bb_after_cur(c, entry);
    assert_eq!(f.order, vec![entry, c, b, a]);
    f.set_bb_after_cur(entry, a);
    assert_eq!(f.order, vec![c, b, a, entry]);
    let ret = f.build_inst_at_end(InstKind::RetInst(RetInst { val: None }), IrTy::Void, a);
    let jump = f.build_inst_at_end(InstKind::Br(Br::Jump { nxt_bb: a }), IrTy::Void, entry);
    assert_eq!((ret, jump), (InstId(0), InstId(1)));
    assert_eq!(f.blocks[1].insts, vec![InstId(0)]);
    assert_eq!(f.blocks[0].insts, vec![InstId(1)]);
    assert!(f.get_inst(InstId(1)).is_some());
    assert!(f.get_inst(InstId(2)).is_none());
    assert!(f.get_bb(BBId(4)).is_none());
    let p = f.build_func_param(IrTy::Int(32));
    assert_eq!(p.0, 0);
    assert!(f.get_param(p).is_some());
    assert_eq!(f.get_ty().params_ty.len(), 1);
}

#[test]
fn context_builds_into_the_function_under_the_cursor() {
    let mut ctx = Context::new();
    let first = ctx.build_func(IrFunc::new("first", IrTy::Void, false));
    let second = ctx.build_func(IrFunc::new("second", IrTy::Int(32), false));
    assert_eq!((first, second), (FuncId(0), FuncId(1)));
    ctx.set_cur_func(second);
    assert_eq!(ctx.cur_func, second);
    let entry = ctx.build_bb();
    ctx.set_cur_bb(entry);
    assert_eq!(ctx.get_cur_bb_id(), entry);
    let after = ctx.build_bb_after_cur();
    let last = ctx.build_bb();
    ctx.set_bb_after(last, entry);
    assert_eq!(ctx.cur_module.funcs[1].order, vec![entry, last, after]);
    let id = ctx.build_inst_end_of_cur(InstKind::RetInst(RetInst { val: None }), IrTy::Void);
    let other = ctx.build_inst_end(InstKind::RetInst(RetInst { val: None }), IrTy::Void, after);
    assert_eq!((id, other), (InstId(0), InstId(1)));
    assert!(ctx.cur_module.funcs[0].insts.is_empty());
    assert_eq!(ctx.cur_module.funcs[1].blocks[1].insts, vec![InstId(1)]);
    ctx.build_func_param(IrTy::Int(32));
    assert!(matches!(ctx.get_func_ty(second).ret_ty, IrTy::Int(32)));
    assert_eq!(ctx.get_func_ty(second).params_ty.len(), 1);
    let g = ctx.build_global(Global::new(IrTy::ptr_of(&IrTy::Int(32)), "g", Constant::Int(1)));
    assert_eq!(g.0, 0);
    assert_eq!(ctx.cur_module.get_global(g).unwrap().name, "g");
    assert!(ctx.cur_module.get_func(FuncId(2)).is_none());
    assert_eq!(ctx.cur_module.get_func(first).unwrap().name, "first");
}

#[test]
fn a_copy_of_a_tree_equals_the_tree() {
    let arg = Expr::Binary(BinaryExpr {
        op: BinaryOp::Add,
        lhs: Box::new(Expr::Literal(int_lit(1, 0, 1))),
        rhs: Box::new(Expr::Literal(int_lit(2, 2, 3))),
        span: Span { start: 0, end: 3 },
        ty: AstTy::Unknown,
    });
    let call = Expr::Call(CallExpr {
        func: Ident { name: "putint".to_string(), span: Span { start: 0, end: 6 } },
        args: vec![arg],
        span: Span { start: 0, end: 9 },
        ty: AstTy::Unknown,
    });
    let stmt = Stmt::Return(ReturnStmt { val: Some(Box::new(call)), span: Span { start: 0, end: 10 } });
    let copy = stmt.clone();
    assert_eq!(format!("{:?}", copy), format!("{:?}", stmt));
    let item = BlockItem::Stmt(copy);
    assert_eq!(format!("{:?}", item.clone()), format!("{:?}", item));
}
