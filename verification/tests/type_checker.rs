use sysy_ir::ast::{
    AssignExpr, AstFunc, AstTy, BinaryExpr, BinaryOp, BlockItem, BlockStmt, CallExpr, Decl, Expr,
    FuncParam, Ident, IfStmt, InitVal, InitValKind, LVal, LiteralExpr, LiteralKind, PrimitiveTy,
    Program, ProgramItem, ReturnStmt, Stmt, SubDecl, Subs, TyIdentKind, TypeIdent, UnaryExpr,
    UnaryOp, WhileStmt,
};
use sysy_ir::err::{Expected, SemanticError};
use sysy_ir::span::Span;
use sysy_ir::type_checker::{assert_type_eq, fold_binary_op, TypeChecker};

fn sp(start: usize, end: usize) -> Span {
    Span { start, end }
}

fn ident(name: &str) -> Ident {
    Ident { name: name.to_string(), span: sp(0, 0) }
}

fn lit_at(value: i32, start: usize, end: usize) -> Expr {
    Expr::Literal(LiteralExpr {
        kind: LiteralKind::Integer(value),
        span: sp(start, end),
        ty: AstTy::Unknown,
    })
}

fn lit(value: i32) -> Expr {
    lit_at(value, 0, 0)
}

fn var(name: &str) -> Expr {
    Expr::LVal(LVal {
        ident: ident(name),
        subs: None,
        span: sp(0, 0),
        ty: AstTy::Unknown,
        is_lvalue: false,
    })
}

fn index(name: &str, subs: Vec<Expr>) -> Expr {
    Expr::LVal(LVal {
        ident: ident(name),
        subs: Some(Subs { subs, span: sp(0, 0) }),
        span: sp(0, 0),
        ty: AstTy::Unknown,
        is_lvalue: false,
    })
}

fn binary(op: BinaryOp, lhs: Expr, rhs: Expr) -> Expr {
    Expr::Binary(BinaryExpr {
        op,
        lhs: Box::new(lhs),
        rhs: Box::new(rhs),
        span: sp(0, 0),
        ty: AstTy::Unknown,
    })
}

fn unary(op: UnaryOp, sub_expr: Expr) -> Expr {
    Expr::Unary(UnaryExpr { op, sub_expr: Box::new(sub_expr), span: sp(0, 0), ty: AstTy::Unknown })
}

fn assign(lhs: Expr, rhs: Expr) -> Expr {
    Expr::Assign(AssignExpr {
        lhs: Box::new(lhs),
        rhs: Box::new(rhs),
        allow_assign_const: false,
        span: sp(0, 0),
        ty: AstTy::Unknown,
    })
}

fn call(name: &str, args: Vec<Expr>) -> Expr {
    Expr::Call(CallExpr { func: ident(name), args, span: sp(0, 0), ty: AstTy::Unknown })
}

fn int_ty() -> TypeIdent {
    TypeIdent { kind: TyIdentKind::Primitive(PrimitiveTy::Integer), span: sp(0, 0) }
}

fn void_ty() -> TypeIdent {
    TypeIdent { kind: TyIdentKind::Void, span: sp(0, 0) }
}

fn init_expr(e: Expr) -> InitVal {
    InitVal { ty: AstTy::Unknown, kind: InitValKind::Expr(e), span: sp(0, 0) }
}

fn init_list(vals: Vec<InitVal>) -> InitVal {
    InitVal { ty: AstTy::Unknown, kind: InitValKind::ArrayVal(vals), span: sp(0, 0) }
}

fn sub_decl(name: &str, dims: Option<Vec<Expr>>, init_val: Option<InitVal>) -> SubDecl {
    SubDecl {
        ident: ident(name),
        subs: dims.map(|subs| Subs { subs, span: sp(0, 0) }),
        init_val,
        span: sp(0, 0),
        ty: AstTy::Unknown,
    }
}

fn decl(is_const: bool, sub_decls: Vec<SubDecl>) -> Decl {
    Decl { is_const, ty_ident: int_ty(), sub_decls, span: sp(0, 0) }
}

fn block(block_items: Vec<BlockItem>) -> BlockStmt {
    BlockStmt { block_items, span: sp(0, 0) }
}

fn func(name: &str, ret: TypeIdent, params: Vec<FuncParam>, items: Vec<BlockItem>) -> AstFunc {
    AstFunc { ident: ident(name), params, ret_ty_ident: ret, body: block(items), span: sp(0, 0) }
}

fn param(name: &str, dims: Option<Vec<Expr>>) -> FuncParam {
    FuncParam {
        ident: ident(name),
        subs: dims.map(|subs| Subs { subs, span: sp(0, 0) }),
        ty_ident: int_ty(),
        ty: AstTy::Unknown,
        span: sp(0, 0),
    }
}

fn ret(val: Option<Expr>) -> Stmt {
    Stmt::Return(ReturnStmt { val: val.map(Box::new), span: sp(0, 0) })
}

/// A checker with one open scope that holds `int x`, `const int c = 7` and
/// `int arr[2][3]`.
fn checker_with_names() -> TypeChecker {
    let mut checker = TypeChecker::new();
    checker.scopes.push_scope();
    let mut names = decl(false, vec![sub_decl("x", None, None)]);
    checker.visit_global_decl(&mut names).unwrap();
    let mut consts = decl(true, vec![sub_decl("c", None, Some(init_expr(lit(7))))]);
    checker.visit_global_decl(&mut consts).unwrap();
    let mut arrays = decl(false, vec![sub_decl("arr", Some(vec![lit(2), lit(3)]), None)]);
    checker.visit_global_decl(&mut arrays).unwrap();
    checker
}

fn check_program(program: &mut Program) -> Result<(), SemanticError> {
    TypeChecker::new().visit_program(program)
}

fn int_array(siz: usize) -> AstTy {
    AstTy::Array { siz, elem_ty: Box::new(AstTy::Int) }
}

#[test]
fn folds_three_plus_four_times_two_to_eleven() {
    let mut checker = TypeChecker::new();
    let mut expr =
        binary(BinaryOp::Add, lit_at(3, 0, 1), binary(BinaryOp::Mul, lit_at(4, 4, 5), lit_at(2, 8, 9)));
    let folded = checker.visit_expr(&mut expr).unwrap().unwrap();
    assert_eq!(folded.get_int(), Some(11));
    assert_eq!(folded.ty, AstTy::Int);
    assert_eq!(folded.span, sp(0, 9));
    match &expr {
        Expr::Binary(b) => {
            assert_eq!(b.ty, AstTy::Int);
            assert_eq!(b.lhs.as_literal().unwrap().get_int(), Some(3));
            let rhs = b.rhs.as_literal().unwrap();
            assert_eq!(rhs.get_int(), Some(8));
            assert_eq!(rhs.span, sp(4, 9));
        }
        _ => panic!("the node itself stays a binary expression"),
    }
}

#[test]
fn const_array_initializer_takes_declared_size() {
    let mut program = Program {
        program_items: vec![ProgramItem::Decl(decl(
            true,
            vec![sub_decl(
                "a",
                Some(vec![lit(3)]),
                Some(init_list(vec![init_expr(lit(1)), init_expr(lit(2))])),
            )],
        ))],
    };
    check_program(&mut program).unwrap();
    let ProgramItem::Decl(d) = &program.program_items[0] else { panic!() };
    let sd = &d.sub_decls[0];
    assert_eq!(sd.ty, int_array(3));
    assert!(matches!(&sd.ty, AstTy::Array { siz: 3, .. }));
    let InitValKind::Const(literal) = &sd.init_val.as_ref().unwrap().kind else { panic!() };
    assert!(matches!(&literal.ty, AstTy::Array { siz: 3, .. }));
    let LiteralKind::Array(siz, vals) = &literal.kind else { panic!() };
    assert_eq!(*siz, 3);
    assert_eq!(vals.len(), 3);
    assert_eq!(vals[0].get_int(), Some(1));
    assert_eq!(vals[1].get_int(), Some(2));
    assert_eq!(vals[2].get_int(), Some(0));
    assert_eq!(vals[2].ty, AstTy::Int);
}

#[test]
fn missing_rows_of_a_constant_array_are_rows_of_zeros() {
    let mut literal = LiteralExpr {
        kind: LiteralKind::Array(
            1,
            vec![LiteralExpr {
                kind: LiteralKind::Array(
                    1,
                    vec![LiteralExpr { kind: LiteralKind::Integer(5), span: sp(2, 3), ty: AstTy::Int }],
                ),
                span: sp(1, 4),
                ty: AstTy::Unknown,
            }],
        ),
        span: sp(0, 5),
        ty: AstTy::Unknown,
    };
    let ty = AstTy::Array { siz: 2, elem_ty: Box::new(int_array(2)) };
    TypeChecker::fix_array_literal(&mut literal, &ty).unwrap();
    assert_eq!(literal.ty, ty);
    let LiteralKind::Array(siz, rows) = &literal.kind else { panic!() };
    assert_eq!((*siz, rows.len()), (2, 2));
    let ints = |row: &LiteralExpr| -> Vec<Option<i32>> {
        let LiteralKind::Array(siz, vals) = &row.kind else { panic!() };
        assert_eq!(*siz, vals.len());
        vals.iter().map(|v| v.get_int()).collect()
    };
    assert_eq!(ints(&rows[0]), vec![Some(5), Some(0)]);
    assert_eq!(ints(&rows[1]), vec![Some(0), Some(0)]);
    assert_eq!(rows[1].ty, int_array(2));
    assert_eq!(rows[1].span, sp(0, 5));

    let zero = TypeChecker::zero_literal(&AstTy::Int, sp(7, 8));
    assert_eq!(zero.get_int(), Some(0));
    assert_eq!((zero.ty, zero.span), (AstTy::Int, sp(7, 8)));

    let mut full = literal.clone();
    TypeChecker::fix_array_literal(&mut full, &ty).unwrap();
    assert_eq!(format!("{:?}", full), format!("{:?}", literal));
}

#[test]
fn too_long_a_literal_is_refused_and_keeps_its_type() {
    let mut literal = LiteralExpr {
        kind: LiteralKind::Array(
            2,
            vec![
                LiteralExpr { kind: LiteralKind::Integer(1), span: sp(0, 0), ty: AstTy::Int },
                LiteralExpr { kind: LiteralKind::Integer(2), span: sp(0, 0), ty: AstTy::Int },
            ],
        ),
        span: sp(0, 0),
        ty: AstTy::Unknown,
    };
    assert!(matches!(
        TypeChecker::fix_array_literal(&mut literal, &int_array(1)),
        Err(SemanticError::TooMuchElement)
    ));
    assert_eq!(literal.ty, AstTy::Unknown);
    let LiteralKind::Array(siz, vals) = &literal.kind else { panic!() };
    assert_eq!((*siz, vals.len()), (2, 2));

    let mut init = init_list(vec![init_expr(lit(1)), init_expr(lit(2))]);
    let before = init.ty.clone();
    assert!(matches!(
        TypeChecker::fix_array_init_val(&mut init, &int_array(1)),
        Err(SemanticError::TooMuchElement)
    ));
    assert_eq!(init.ty, before);
}

#[test]
fn dimension_of_a_variable_is_not_constant() {
    let mut program = Program {
        program_items: vec![
            ProgramItem::Decl(decl(false, vec![sub_decl("dim", None, Some(init_expr(lit(2))))])),
            ProgramItem::Decl(decl(false, vec![sub_decl("arr", Some(vec![var("dim")]), None)])),
        ],
    };
    assert!(matches!(check_program(&mut program), Err(SemanticError::RequireConstant)));
}

#[test]
fn dimension_of_a_constant_folds() {
    let mut program = Program {
        program_items: vec![
            ProgramItem::Decl(decl(true, vec![sub_decl("dim", None, Some(init_expr(lit(2))))])),
            ProgramItem::Decl(decl(false, vec![sub_decl("arr", Some(vec![var("dim")]), None)])),
        ],
    };
    check_program(&mut program).unwrap();
    let ProgramItem::Decl(d) = &program.program_items[1] else { panic!() };
    assert!(matches!(&d.sub_decls[0].ty, AstTy::Array { siz: 2, .. }));
    let dims = d.sub_decls[0].subs.as_ref().unwrap();
    assert_eq!(dims.subs[0].as_literal().unwrap().get_int(), Some(2));
}

#[test]
fn array_parameter_decays_to_pointer() {
    let mut program = Program {
        program_items: vec![ProgramItem::Func(func(
            "f",
            int_ty(),
            vec![param("a", Some(vec![]))],
            vec![BlockItem::Stmt(ret(Some(index("a", vec![lit(0)]))))],
        ))],
    };
    check_program(&mut program).unwrap();
    let ProgramItem::Func(f) = &program.program_items[0] else { panic!() };
    assert!(matches!(&f.params[0].ty, AstTy::Ptr(elem) if matches!(**elem, AstTy::Int)));
    let BlockItem::Stmt(Stmt::Return(r)) = &f.body.block_items[0] else { panic!() };
    assert!(matches!(r.val.as_ref().unwrap().ty(), AstTy::Int));
}

#[test]
fn parameter_with_inner_dimension_points_to_array() {
    let mut checker = TypeChecker::new();
    let mut p = param("m", Some(vec![lit(4)]));
    checker.visit_func_param(&mut p).unwrap();
    let AstTy::Ptr(elem) = &p.ty else { panic!() };
    assert!(matches!(**elem, AstTy::Array { siz: 4, .. }));
}

#[test]
fn checking_a_folded_expression_again_changes_nothing() {
    let mut checker = checker_with_names();
    let mut expr = binary(
        BinaryOp::Add,
        binary(BinaryOp::Mul, var("c"), lit(2)),
        binary(BinaryOp::Sub, var("x"), unary(UnaryOp::Neg, lit(5))),
    );
    let first = checker.visit_expr(&mut expr).unwrap();
    let after_first = format!("{:?}", expr);
    let second = checker.visit_expr(&mut expr).unwrap();
    assert_eq!(format!("{:?}", expr), after_first);
    assert_eq!(format!("{:?}", first), format!("{:?}", second));
    assert!(first.is_none());
    let Expr::Binary(b) = &expr else { panic!() };
    assert_eq!(b.lhs.as_literal().unwrap().get_int(), Some(14));
}

#[test]
fn operators_yield_the_types_of_the_table() {
    let mut checker = checker_with_names();
    let cases = [
        (BinaryOp::Add, AstTy::Int),
        (BinaryOp::Sub, AstTy::Int),
        (BinaryOp::Mul, AstTy::Int),
        (BinaryOp::Div, AstTy::Int),
        (BinaryOp::Mod, AstTy::Int),
        (BinaryOp::Lt, AstTy::Bool),
        (BinaryOp::Le, AstTy::Bool),
        (BinaryOp::Gt, AstTy::Bool),
        (BinaryOp::Ge, AstTy::Bool),
        (BinaryOp::Eq, AstTy::Bool),
        (BinaryOp::Ne, AstTy::Bool),
    ];
    for (op, ty) in cases {
        let mut expr = binary(op, var("x"), lit(1));
        checker.visit_expr(&mut expr).unwrap();
        assert_eq!(expr.ty(), ty);
    }
    for op in [BinaryOp::And, BinaryOp::Or] {
        let mut expr = binary(
            op,
            binary(BinaryOp::Lt, var("x"), lit(1)),
            binary(BinaryOp::Gt, var("x"), lit(0)),
        );
        checker.visit_expr(&mut expr).unwrap();
        assert_eq!(expr.ty(), AstTy::Bool);
    }
    let mut neg = unary(UnaryOp::Neg, var("x"));
    checker.visit_expr(&mut neg).unwrap();
    assert_eq!(neg.ty(), AstTy::Int);
    let mut not_int = unary(UnaryOp::Not, var("x"));
    checker.visit_expr(&mut not_int).unwrap();
    assert_eq!(not_int.ty(), AstTy::Int);
    let mut not_bool = unary(UnaryOp::Not, binary(BinaryOp::Lt, var("x"), lit(1)));
    checker.visit_expr(&mut not_bool).unwrap();
    assert_eq!(not_bool.ty(), AstTy::Bool);
}

#[test]
fn no_checked_node_is_left_unknown() {
    let mut checker = checker_with_names();
    let mut expr = assign(
        index("arr", vec![lit(1), binary(BinaryOp::Add, var("x"), lit(1))]),
        call("getint", vec![]),
    );
    checker.push_built_in_funcs();
    checker.visit_expr(&mut expr).unwrap();
    let Expr::Assign(a) = &expr else { panic!() };
    assert_eq!(a.ty, AstTy::Int);
    assert_eq!(a.lhs.ty(), AstTy::Int);
    assert_eq!(a.rhs.ty(), AstTy::Int);
    let Expr::LVal(l) = a.lhs.as_ref() else { panic!() };
    assert!(l.is_lvalue);
    for sub in &l.subs.as_ref().unwrap().subs {
        assert_eq!(sub.ty(), AstTy::Int);
    }
}

#[test]
fn arithmetic_wraps_and_division_rounds_towards_zero() {
    assert_eq!(fold_binary_op(BinaryOp::Add, i32::MAX, 1), Some(i32::MIN));
    assert_eq!(fold_binary_op(BinaryOp::Sub, i32::MIN, 1), Some(i32::MAX));
    assert_eq!(fold_binary_op(BinaryOp::Mul, 65536, 65536), Some(0));
    assert_eq!(fold_binary_op(BinaryOp::Div, -7, 2), Some(-3));
    assert_eq!(fold_binary_op(BinaryOp::Div, 7, -2), Some(-3));
    assert_eq!(fold_binary_op(BinaryOp::Div, -7, -2), Some(3));
    assert_eq!(fold_binary_op(BinaryOp::Mod, -7, 2), Some(-1));
    assert_eq!(fold_binary_op(BinaryOp::Mod, 7, -2), Some(1));
    assert_eq!(fold_binary_op(BinaryOp::Mod, -7, -2), Some(-1));
    assert_eq!(fold_binary_op(BinaryOp::Div, 1, 0), None);
    assert_eq!(fold_binary_op(BinaryOp::Mod, 1, 0), None);
    assert_eq!(fold_binary_op(BinaryOp::Div, i32::MIN, -1), None);
    assert_eq!(fold_binary_op(BinaryOp::Lt, 1, 2), Some(1));
    assert_eq!(fold_binary_op(BinaryOp::Ge, 1, 2), Some(0));
    assert_eq!(fold_binary_op(BinaryOp::Eq, 2, 2), Some(1));
    assert_eq!(fold_binary_op(BinaryOp::Ne, 2, 2), Some(0));
    assert_eq!(fold_binary_op(BinaryOp::And, 2, 0), Some(0));
    assert_eq!(fold_binary_op(BinaryOp::Or, 2, 0), Some(1));
}

#[test]
fn division_by_constant_zero_is_left_unfolded() {
    let mut checker = TypeChecker::new();
    let mut expr = binary(BinaryOp::Div, lit(1), lit(0));
    assert!(checker.visit_expr(&mut expr).unwrap().is_none());
    assert_eq!(expr.ty(), AstTy::Int);
}

#[test]
fn unary_operators_fold() {
    let mut checker = TypeChecker::new();
    let mut neg = unary(UnaryOp::Neg, lit(5));
    assert_eq!(checker.visit_expr(&mut neg).unwrap().unwrap().get_int(), Some(-5));
    let mut pos = unary(UnaryOp::Pos, lit(5));
    assert_eq!(checker.visit_expr(&mut pos).unwrap().unwrap().get_int(), Some(5));
    let mut min = unary(UnaryOp::Neg, lit(i32::MIN));
    assert_eq!(checker.visit_expr(&mut min).unwrap().unwrap().get_int(), Some(i32::MIN));
    let mut not_zero = unary(UnaryOp::Not, lit(0));
    let folded = checker.visit_expr(&mut not_zero).unwrap().unwrap();
    assert_eq!(folded.get_int(), Some(1));
    assert_eq!(folded.ty, AstTy::Int);
    assert_eq!(not_zero.ty(), AstTy::Int);
    let mut not_five = unary(UnaryOp::Not, lit(5));
    assert_eq!(checker.visit_expr(&mut not_five).unwrap().unwrap().get_int(), Some(0));
    let mut not_true = unary(UnaryOp::Not, binary(BinaryOp::Lt, lit(1), lit(2)));
    let folded = checker.visit_expr(&mut not_true).unwrap().unwrap();
    assert_eq!(folded.get_int(), Some(0));
    assert_eq!(folded.ty, AstTy::Bool);
}

#[test]
fn an_assignment_is_no_constant() {
    let mut checker = checker_with_names();
    let mut expr = assign(var("x"), binary(BinaryOp::Add, lit(1), lit(2)));
    assert!(checker.visit_expr(&mut expr).unwrap().is_none());
    let Expr::Assign(a) = &expr else { panic!() };
    assert_eq!(a.ty, AstTy::Int);
    assert_eq!(a.rhs.as_literal().unwrap().get_int(), Some(3));

    let mut nested = binary(BinaryOp::Add, assign(var("x"), lit(3)), lit(1));
    assert!(checker.visit_expr(&mut nested).unwrap().is_none());
    let Expr::Binary(b) = &nested else { panic!() };
    assert!(matches!(&*b.lhs, Expr::Assign(_)));
    assert_eq!(b.rhs.as_literal().unwrap().get_int(), Some(1));
}

#[test]
fn a_node_that_fails_keeps_its_type() {
    let mut checker = checker_with_names();
    let mut sum = binary(BinaryOp::Add, binary(BinaryOp::Lt, lit(1), lit(2)), lit(1));
    assert!(matches!(checker.visit_expr(&mut sum), Err(SemanticError::TypeMismatch { .. })));
    assert_eq!(sum.ty(), AstTy::Unknown);

    let mut short = call("putint", vec![]);
    let mut with_library = TypeChecker::new();
    with_library.scopes.push_scope();
    with_library.push_built_in_funcs();
    assert!(matches!(
        with_library.visit_expr(&mut short),
        Err(SemanticError::TypeMismatch { expected: Expected::ArgCount(0), .. })
    ));
    assert_eq!(short.ty(), AstTy::Unknown);

    let mut element = index("arr", vec![lit(0), binary(BinaryOp::Lt, lit(1), lit(2))]);
    assert!(matches!(
        checker.visit_expr(&mut element),
        Err(SemanticError::TypeMismatch { expected: Expected::Int, found: AstTy::Bool })
    ));
    assert_eq!(element.ty(), AstTy::Unknown);

    let mut target = var("c");
    let before = format!("{:?}", target);
    assert!(matches!(
        checker.visit_lexpr(&mut target, true),
        Err(SemanticError::CannotModifyConstValue(name)) if name == "c"
    ));
    assert_eq!(format!("{:?}", target), before);
}

#[test]
fn a_declaration_that_fails_declares_nothing() {
    let mut checker = checker_with_names();
    let mut again = decl(false, vec![sub_decl("x", None, Some(init_expr(lit(1))))]);
    assert!(matches!(
        checker.visit_decl_stmt(&mut again),
        Err(SemanticError::DuplicateName(name)) if name == "x"
    ));
    let x = checker.scopes.find_name_rec("x").unwrap();
    assert_eq!(x.ty, AstTy::Int);
    assert!(!x.is_const);

    let mut bare = decl(true, vec![sub_decl("k", None, None)]);
    assert!(matches!(checker.visit_decl_stmt(&mut bare), Err(SemanticError::RequireConstant)));
    assert!(checker.scopes.find_name_rec("k").is_none());

    let mut sized = decl(false, vec![sub_decl("arr2", Some(vec![var("x")]), None)]);
    assert!(matches!(checker.visit_global_decl(&mut sized), Err(SemanticError::RequireConstant)));
    assert!(checker.scopes.find_name_rec("arr2").is_none());

    let mut two = decl(false, vec![sub_decl("first", None, None), sub_decl("x", None, None)]);
    assert!(matches!(checker.visit_decl_stmt(&mut two), Err(SemanticError::DuplicateName(_))));
    assert!(checker.scopes.find_name_rec("first").is_some());
}

#[test]
fn use_of_a_constant_folds_to_its_value() {
    let mut checker = checker_with_names();
    let mut expr = binary(BinaryOp::Add, var("c"), lit(1));
    assert_eq!(checker.visit_expr(&mut expr).unwrap().unwrap().get_int(), Some(8));
    let mut plain = var("x");
    assert!(checker.visit_expr(&mut plain).unwrap().is_none());
    assert_eq!(plain.ty(), AstTy::Int);
}

#[test]
fn unknown_name_is_an_error() {
    let mut checker = checker_with_names();
    let mut expr = var("nowhere");
    assert!(
        matches!(checker.visit_expr(&mut expr), Err(SemanticError::UnknownName(name)) if name == "nowhere")
    );
    let mut called = call("nowhere", vec![]);
    assert!(matches!(checker.visit_expr(&mut called), Err(SemanticError::UnknownName(_))));
}

#[test]
fn duplicate_function_and_parameter_names_are_errors() {
    let mut twice = Program {
        program_items: vec![
            ProgramItem::Func(func("f", void_ty(), vec![], vec![])),
            ProgramItem::Func(func("f", void_ty(), vec![], vec![])),
        ],
    };
    assert!(matches!(check_program(&mut twice), Err(SemanticError::DuplicateName(name)) if name == "f"));
    let mut params = Program {
        program_items: vec![ProgramItem::Func(func(
            "g",
            void_ty(),
            vec![param("a", None), param("a", None)],
            vec![],
        ))],
    };
    assert!(matches!(check_program(&mut params), Err(SemanticError::DuplicateName(name)) if name == "a"));
}

#[test]
fn type_mismatches_are_errors() {
    let mut checker = checker_with_names();
    let mut logical = binary(BinaryOp::And, var("x"), lit(1));
    assert!(matches!(
        checker.visit_expr(&mut logical),
        Err(SemanticError::TypeMismatch { expected: Expected::Bool, found: AstTy::Int })
    ));
    let mut arithmetic = binary(BinaryOp::Add, binary(BinaryOp::Lt, var("x"), lit(1)), lit(1));
    assert!(matches!(
        checker.visit_expr(&mut arithmetic),
        Err(SemanticError::TypeMismatch { expected: Expected::Int, found: AstTy::Bool })
    ));
    let mut subscript = index("x", vec![lit(0)]);
    assert!(matches!(
        checker.visit_expr(&mut subscript),
        Err(SemanticError::TypeMismatch { expected: Expected::Array, found: AstTy::Int })
    ));
    let mut whole = assign(var("arr"), lit(1));
    assert!(matches!(
        checker.visit_expr(&mut whole),
        Err(SemanticError::TypeMismatch { expected: Expected::IntOrBool, .. })
    ));
    let mut cond = Stmt::If(IfStmt {
        cond: Box::new(var("x")),
        then_block: Box::new(Stmt::Empty(sp(0, 0))),
        else_block: None,
        span: sp(0, 0),
    });
    assert!(matches!(
        checker.visit_stmt(&mut cond),
        Err(SemanticError::TypeMismatch { expected: Expected::Bool, found: AstTy::Int })
    ));
    assert!(matches!(
        assert_type_eq(&AstTy::Int, &AstTy::Void),
        Err(SemanticError::TypeMismatch { expected: Expected::Type(AstTy::Int), found: AstTy::Void })
    ));
    assert!(assert_type_eq(&int_array(3), &AstTy::Ptr(Box::new(AstTy::Int))).is_ok());
}

#[test]
fn return_must_match_the_function() {
    let mut wrong = Program {
        program_items: vec![ProgramItem::Func(func(
            "f",
            void_ty(),
            vec![],
            vec![BlockItem::Stmt(ret(Some(lit(1))))],
        ))],
    };
    assert!(matches!(check_program(&mut wrong), Err(SemanticError::TypeMismatch { .. })));
    let mut right = Program {
        program_items: vec![ProgramItem::Func(func(
            "f",
            int_ty(),
            vec![],
            vec![BlockItem::Stmt(ret(Some(lit(1))))],
        ))],
    };
    assert!(check_program(&mut right).is_ok());
}

#[test]
fn calls_are_checked_against_the_signature() {
    let mut checker = checker_with_names();
    checker.push_built_in_funcs();
    let mut good = call("putarray", vec![lit(2), index("arr", vec![lit(0)])]);
    assert!(checker.visit_expr(&mut good).unwrap().is_none());
    assert_eq!(good.ty(), AstTy::Int);
    let mut void_call = call("putint", vec![lit(2)]);
    checker.visit_expr(&mut void_call).unwrap();
    assert_eq!(void_call.ty(), AstTy::Void);
    let mut too_many = call("putint", vec![lit(1), lit(2)]);
    assert!(matches!(
        checker.visit_expr(&mut too_many),
        Err(SemanticError::TypeMismatch { expected: Expected::ArgCount(2), .. })
    ));
    let mut wrong_type = call("getarray", vec![lit(1)]);
    assert!(matches!(
        checker.visit_expr(&mut wrong_type),
        Err(SemanticError::TypeMismatch { expected: Expected::Type(AstTy::Int), .. })
    ));
    let mut not_a_function = call("x", vec![]);
    assert!(
        matches!(checker.visit_expr(&mut not_a_function), Err(SemanticError::ExpectedFunction(name)) if name == "x")
    );
}

#[test]
fn constant_rules_are_errors() {
    let mut checker = checker_with_names();
    let mut written = assign(var("c"), lit(1));
    assert!(
        matches!(checker.visit_expr(&mut written), Err(SemanticError::CannotModifyConstValue(name)) if name == "c")
    );
    let mut target = assign(lit(1), lit(2));
    assert!(matches!(checker.visit_expr(&mut target), Err(SemanticError::RequireLValue)));
    let mut no_init = decl(true, vec![sub_decl("k", None, None)]);
    assert!(matches!(checker.visit_decl_stmt(&mut no_init), Err(SemanticError::RequireConstant)));
    let mut global = decl(false, vec![sub_decl("g", None, Some(init_expr(var("x"))))]);
    assert!(matches!(checker.visit_global_decl(&mut global), Err(SemanticError::RequireConstant)));
}

#[test]
fn array_dimension_rules_are_errors() {
    let mut checker = checker_with_names();
    let mut zero = decl(false, vec![sub_decl("z", Some(vec![lit(0)]), None)]);
    assert!(matches!(checker.visit_decl_stmt(&mut zero), Err(SemanticError::IllegalArrayDim)));
    let mut negative = decl(false, vec![sub_decl("n", Some(vec![unary(UnaryOp::Neg, lit(2))]), None)]);
    assert!(matches!(checker.visit_decl_stmt(&mut negative), Err(SemanticError::IllegalArrayDim)));
    let mut too_long = decl(
        false,
        vec![sub_decl(
            "t",
            Some(vec![lit(1)]),
            Some(init_list(vec![init_expr(lit(1)), init_expr(lit(2))])),
        )],
    );
    assert!(matches!(checker.visit_decl_stmt(&mut too_long), Err(SemanticError::TooMuchElement)));
    let mut too_long_global = decl(
        true,
        vec![sub_decl(
            "u",
            Some(vec![lit(1)]),
            Some(init_list(vec![init_expr(lit(1)), init_expr(lit(2))])),
        )],
    );
    assert!(matches!(
        checker.visit_global_decl(&mut too_long_global),
        Err(SemanticError::TooMuchElement)
    ));
}

#[test]
fn first_failing_element_of_a_constant_list_is_reported() {
    let mut checker = checker_with_names();
    let mut list = init_list(vec![init_expr(lit(1)), init_expr(var("x")), init_expr(var("nowhere"))]);
    assert!(matches!(
        checker.visit_const_init_val(&mut list),
        Err(SemanticError::RequireConstant)
    ));
    let mut good = init_list(vec![
        init_list(vec![init_expr(lit(1))]),
        init_list(vec![init_expr(binary(BinaryOp::Add, var("c"), lit(1))), init_expr(lit(3))]),
    ]);
    let literal = checker.visit_const_init_val(&mut good).unwrap();
    let LiteralKind::Array(siz, vals) = &literal.kind else { panic!() };
    assert_eq!(*siz, 2);
    let LiteralKind::Array(inner_siz, inner) = &vals[1].kind else { panic!() };
    assert_eq!(*inner_siz, 2);
    assert_eq!(inner[0].get_int(), Some(8));
    assert_eq!(inner[1].get_int(), Some(3));
}

#[test]
fn local_array_initializer_takes_the_declared_type() {
    let mut checker = checker_with_names();
    let mut local = decl(
        false,
        vec![sub_decl(
            "m",
            Some(vec![lit(2), lit(2)]),
            Some(init_list(vec![
                init_list(vec![init_expr(binary(BinaryOp::Add, lit(1), lit(1)))]),
                init_list(vec![init_expr(var("x")), init_expr(lit(4))]),
            ])),
        )],
    );
    checker.visit_decl_stmt(&mut local).unwrap();
    let sd = &local.sub_decls[0];
    let init = sd.init_val.as_ref().unwrap();
    assert!(matches!(&init.ty, AstTy::Array { siz: 2, elem_ty } if matches!(**elem_ty, AstTy::Array { siz: 2, .. })));
    let InitValKind::ArrayVal(rows) = &init.kind else { panic!() };
    assert!(matches!(&rows[0].ty, AstTy::Array { siz: 2, .. }));
    let InitValKind::ArrayVal(first) = &rows[0].kind else { panic!() };
    let InitValKind::Expr(folded) = &first[0].kind else { panic!() };
    assert_eq!(folded.as_literal().unwrap().get_int(), Some(2));
}

#[test]
fn inner_block_shadows_and_siblings_do_not_clash() {
    let inner = |name: &str| {
        Stmt::Block(block(vec![BlockItem::Decl(decl(false, vec![sub_decl(name, None, None)]))]))
    };
    let mut program = Program {
        program_items: vec![ProgramItem::Func(func(
            "f",
            void_ty(),
            vec![],
            vec![
                BlockItem::Decl(decl(false, vec![sub_decl("v", None, None)])),
                BlockItem::Stmt(inner("v")),
                BlockItem::Stmt(inner("w")),
                BlockItem::Stmt(inner("w")),
            ],
        ))],
    };
    assert!(check_program(&mut program).is_ok());
}

#[test]
fn redeclaring_in_the_same_block_is_a_duplicate() {
    let mut program = Program {
        program_items: vec![ProgramItem::Func(func(
            "f",
            void_ty(),
            vec![],
            vec![
                BlockItem::Decl(decl(false, vec![sub_decl("v", None, None)])),
                BlockItem::Decl(decl(false, vec![sub_decl("v", None, None)])),
            ],
        ))],
    };
    assert!(matches!(check_program(&mut program), Err(SemanticError::DuplicateName(name)) if name == "v"));
    let mut globals = Program {
        program_items: vec![ProgramItem::Decl(decl(
            false,
            vec![sub_decl("g", None, None), sub_decl("g", None, None)],
        ))],
    };
    assert!(matches!(check_program(&mut globals), Err(SemanticError::DuplicateName(name)) if name == "g"));
}

#[test]
fn break_and_continue_pass_the_checker_anywhere() {
    let mut program = Program {
        program_items: vec![ProgramItem::Func(func(
            "f",
            void_ty(),
            vec![],
            vec![BlockItem::Stmt(Stmt::Break(sp(0, 0))), BlockItem::Stmt(Stmt::Continue(sp(0, 0)))],
        ))],
    };
    assert!(check_program(&mut program).is_ok());
}

#[test]
fn recursion_and_builtins_resolve() {
    let body = vec![
        BlockItem::Stmt(Stmt::While(WhileStmt {
            cond: Box::new(binary(BinaryOp::Gt, var("n"), lit(0))),
            body: Box::new(Stmt::Expr(call("putint", vec![call("f", vec![var("n")])]))),
            span: sp(0, 0),
        })),
        BlockItem::Stmt(ret(Some(call("getint", vec![])))),
    ];
    let mut program = Program {
        program_items: vec![ProgramItem::Func(func("f", int_ty(), vec![param("n", None)], body))],
    };
    let mut checker = TypeChecker::new();
    assert!(checker.visit_program(&mut program).is_ok());
    assert_eq!(checker.cur_func_ret_ty, AstTy::Int);
    assert!(checker.scopes.find_name_rec("f").is_none());
}

#[test]
fn checking_a_checked_function_again_changes_nothing() {
    let body = vec![
        BlockItem::Decl(decl(
            false,
            vec![sub_decl("x", None, Some(init_expr(binary(BinaryOp::Add, lit(1), lit(2)))))],
        )),
        BlockItem::Decl(decl(
            false,
            vec![sub_decl(
                "a",
                Some(vec![binary(BinaryOp::Mul, lit(2), lit(2))]),
                Some(init_list(vec![init_expr(var("x")), init_expr(unary(UnaryOp::Neg, lit(1)))])),
            )],
        )),
        BlockItem::Stmt(Stmt::While(WhileStmt {
            cond: Box::new(binary(BinaryOp::Lt, var("x"), binary(BinaryOp::Sub, lit(9), lit(4)))),
            body: Box::new(Stmt::Expr(assign(
                index("a", vec![binary(BinaryOp::Mod, lit(7), lit(4))]),
                binary(BinaryOp::Add, var("x"), call("getint", vec![])),
            ))),
            span: sp(0, 0),
        })),
        BlockItem::Stmt(ret(Some(binary(BinaryOp::Mul, var("x"), lit(3))))),
    ];
    let mut program = Program {
        program_items: vec![ProgramItem::Func(func("f", int_ty(), vec![param("n", None)], body))],
    };
    check_program(&mut program).unwrap();
    let once = format!("{:?}", program);
    let mut again = program.clone();
    assert_eq!(format!("{:?}", again), once);
    check_program(&mut again).unwrap();
    assert_eq!(format!("{:?}", again), once);
}

#[test]
fn checking_a_folded_comparison_again_keeps_it_a_boolean() {
    let mut checker = TypeChecker::new();
    let mut expr = unary(UnaryOp::Not, binary(BinaryOp::Lt, lit(1), lit(2)));
    checker.visit_expr(&mut expr).unwrap();
    assert_eq!(expr.ty(), AstTy::Bool);
    checker.visit_expr(&mut expr).unwrap();
    assert_eq!(expr.ty(), AstTy::Bool);

    let mut both = binary(
        BinaryOp::And,
        binary(BinaryOp::Lt, lit_at(1, 0, 1), lit_at(2, 2, 3)),
        binary(BinaryOp::Lt, lit_at(3, 4, 5), lit_at(4, 6, 7)),
    );
    let first = checker.visit_expr(&mut both).unwrap().unwrap();
    assert_eq!((first.get_int(), first.ty.clone()), (Some(1), AstTy::Bool));
    let once = format!("{:?}", both);
    let second = checker.visit_expr(&mut both).unwrap().unwrap();
    assert_eq!(format!("{:?}", both), once);
    assert_eq!(format!("{:?}", second), format!("{:?}", first));
}

#[test]
fn a_local_constant_keeps_its_value() {
    let body = vec![
        BlockItem::Decl(decl(
            true,
            vec![sub_decl("n", None, Some(init_expr(binary(BinaryOp::Add, lit(1), lit(2)))))],
        )),
        BlockItem::Decl(decl(false, vec![sub_decl("a", Some(vec![var("n")]), None)])),
        BlockItem::Decl(decl(true, vec![sub_decl("m", None, Some(init_expr(call("getint", vec![]))))])),
        BlockItem::Stmt(ret(Some(binary(BinaryOp::Mul, var("n"), var("m"))))),
    ];
    let mut program = Program {
        program_items: vec![ProgramItem::Func(func("f", int_ty(), vec![], body))],
    };
    check_program(&mut program).unwrap();
    let ProgramItem::Func(f) = &program.program_items[0] else { panic!() };
    let BlockItem::Decl(a) = &f.body.block_items[1] else { panic!() };
    assert_eq!(a.sub_decls[0].ty, int_array(3));
    let BlockItem::Stmt(Stmt::Return(r)) = &f.body.block_items[3] else { panic!() };
    let Some(Expr::Binary(product)) = r.val.as_deref() else { panic!() };
    assert_eq!(product.lhs.as_literal().unwrap().get_int(), Some(3));
    assert!(matches!(&*product.rhs, Expr::LVal(_)));

    let mut checker = checker_with_names();
    let mut k = decl(true, vec![sub_decl("k", None, Some(init_expr(lit(4))))]);
    checker.visit_decl_stmt(&mut k).unwrap();
    let info = checker.scopes.find_name_rec("k").unwrap();
    assert!(info.is_const);
    assert_eq!(info.const_val.as_ref().unwrap().get_int(), Some(4));
    let mut v = decl(false, vec![sub_decl("v", None, Some(init_expr(lit(4))))]);
    checker.visit_decl_stmt(&mut v).unwrap();
    assert!(checker.scopes.find_name_rec("v").unwrap().const_val.is_none());
}

#[test]
fn a_function_whose_name_is_taken_declares_nothing() {
    let mut checker = checker_with_names();
    let mut f = func("x", int_ty(), vec![param("p", None)], vec![BlockItem::Stmt(ret(Some(lit(0))))]);
    assert!(matches!(
        checker.visit_func(&mut f),
        Err(SemanticError::DuplicateName(name)) if name == "x"
    ));
    assert_eq!(checker.scopes.find_name_rec("x").unwrap().ty, AstTy::Int);
    assert!(checker.scopes.find_name_rec("p").is_none());
}

#[test]
fn folded_arguments_and_subscripts_become_literals() {
    let mut checker = checker_with_names();
    checker.push_built_in_funcs();
    let mut print = call("putint", vec![binary(BinaryOp::Add, lit_at(1, 0, 1), lit_at(2, 4, 5))]);
    assert!(checker.visit_expr(&mut print).unwrap().is_none());
    let Expr::Call(c) = &print else { panic!() };
    let arg = c.args[0].as_literal().unwrap();
    assert_eq!((arg.get_int(), arg.span, arg.ty.clone()), (Some(3), sp(0, 5), AstTy::Int));

    let mut read = call("putint", vec![var("x")]);
    checker.visit_expr(&mut read).unwrap();
    let Expr::Call(c) = &read else { panic!() };
    assert!(matches!(&c.args[0], Expr::LVal(_)));

    let mut place = index("arr", vec![binary(BinaryOp::Sub, var("c"), lit(7)), var("x")]);
    assert!(checker.visit_expr(&mut place).unwrap().is_none());
    let Expr::LVal(l) = &place else { panic!() };
    assert_eq!(l.ty, AstTy::Int);
    let subs = &l.subs.as_ref().unwrap().subs;
    assert_eq!(subs[0].as_literal().unwrap().get_int(), Some(0));
    assert!(matches!(&subs[1], Expr::LVal(_)));
}

#[test]
fn checking_a_checked_program_again_changes_nothing() {
    let mut program = Program {
        program_items: vec![
            ProgramItem::Decl(decl(true, vec![sub_decl("n", None, Some(init_expr(lit(2))))])),
            ProgramItem::Decl(decl(
                true,
                vec![sub_decl(
                    "a",
                    Some(vec![var("n"), lit(2)]),
                    Some(init_list(vec![init_list(vec![init_expr(unary(UnaryOp::Not, lit(0)))])])),
                )],
            )),
            ProgramItem::Decl(decl(false, vec![sub_decl("g", None, Some(init_expr(lit(5))))])),
            ProgramItem::Func(func(
                "main",
                int_ty(),
                vec![param("p", Some(vec![var("n")]))],
                vec![
                    BlockItem::Decl(decl(true, vec![sub_decl("k", None, Some(init_expr(lit(1))))])),
                    BlockItem::Stmt(Stmt::If(IfStmt {
                        cond: Box::new(binary(
                            BinaryOp::And,
                            binary(BinaryOp::Lt, var("k"), var("n")),
                            unary(UnaryOp::Not, binary(BinaryOp::Eq, var("g"), lit(0))),
                        )),
                        then_block: Box::new(Stmt::Expr(assign(
                            var("g"),
                            index("a", vec![var("k"), binary(BinaryOp::Sub, var("n"), lit(1))]),
                        ))),
                        else_block: None,
                        span: sp(0, 0),
                    })),
                    BlockItem::Stmt(Stmt::Expr(call(
                        "putint",
                        vec![binary(BinaryOp::Mul, var("n"), var("k"))],
                    ))),
                    BlockItem::Stmt(ret(Some(var("g")))),
                ],
            )),
        ],
    };
    check_program(&mut program).unwrap();
    let ProgramItem::Decl(a) = &program.program_items[1] else { panic!() };
    let InitValKind::Const(rows) = &a.sub_decls[0].init_val.as_ref().unwrap().kind else { panic!() };
    let LiteralKind::Array(_, rows) = &rows.kind else { panic!() };
    let LiteralKind::Array(_, first) = &rows[0].kind else { panic!() };
    assert_eq!(first.iter().map(|v| v.get_int()).collect::<Vec<_>>(), vec![Some(1), Some(0)]);
    let once = format!("{:?}", program);
    check_program(&mut program).unwrap();
    assert_eq!(format!("{:?}", program), once);
}
