//! What the type checker computes, as functions on the views of the syntax
//! tree: the type of each node, the constants that fold, the tree that is
//! left, and the first error.

use vstd::prelude::*;

use crate::ast::{BinaryOp, PrimitiveTy, TyIdentKind, UnaryOp};
use crate::ast_view::{
    ty_eq, AssignExprView, AstFuncView, BinaryExprView, BlockItemView, BlockStmtView,
    CallExprView, DeclView, ExprView, FuncParamView, IfStmtView, InitValKindView, InitValView,
    LValView, LiteralExprView, LiteralKindView, ProgramItemView, ProgramView, ReturnStmtView,
    StmtView, SubDeclView, SubsView, TyView, UnaryExprView, WhileStmtView,
};
use crate::err::{ErrorView, ExpectedView};
use crate::scope::{scopes_can_insert, scopes_find, scopes_insert};
use crate::span::Span;

verus! {

/// What is known of a declared name: its type, its value if it is a constant
/// with a known value, and whether it was declared `const`.
pub struct TyInfoView {
    pub ty: TyView,
    pub const_val: Option<LiteralExprView>,
    pub is_const: bool,
}

/// The scopes in force, the innermost last.
pub type Env = Seq<Map<Seq<char>, TyInfoView>>;

pub open spec fn mismatch(expected: ExpectedView, found: TyView) -> ErrorView {
    ErrorView::TypeMismatch { expected, found }
}

/// The error of two types that should be equal and are not.
pub open spec fn type_eq_error(expected: TyView, found: TyView) -> Option<ErrorView> {
    if ty_eq(expected, found) {
        None
    } else {
        Some(mismatch(ExpectedView::Type(expected), found))
    }
}

pub open spec fn int_literal(value: i32, span: Span, ty: TyView) -> LiteralExprView {
    LiteralExprView { kind: LiteralKindView::Integer(value), span, ty }
}

/// The node that stands for a checked expression: its literal if it folded,
/// else the checked expression itself.
pub open spec fn replaced(checked: ExprView, value: Option<LiteralExprView>) -> ExprView {
    match value {
        Some(lit) => ExprView::Literal(lit),
        None => checked,
    }
}

pub open spec fn bool_int(b: bool) -> i32 {
    if b {
        1
    } else {
        0
    }
}

/// The quotient of a division that rounds towards zero.
pub open spec fn trunc_div(x: int, d: int) -> int
    recommends
        d != 0,
{
    if x >= 0 && d > 0 {
        x / d
    } else if x < 0 && d < 0 {
        (-x) / (-d)
    } else if x < 0 {
        -((-x) / d)
    } else {
        -(x / (-d))
    }
}

/// The remainder of a division that rounds towards zero; it has the sign of
/// the dividend.
pub open spec fn trunc_rem(x: int, d: int) -> int
    recommends
        d != 0,
{
    x - d * trunc_div(x, d)
}

/// Whether a quotient and remainder of 32 bits exist: the divisor is not
/// zero and the quotient fits.
pub open spec fn divisible(x: i32, d: i32) -> bool {
    d != 0 && !(x == i32::MIN && d == -1)
}

/// The value of a binary operator on two constants, in 32-bit arithmetic
/// that wraps around. A division without a 32-bit result has no value.
pub open spec fn fold_binary(op: BinaryOp, l: i32, r: i32) -> Option<i32> {
    match op {
        BinaryOp::Add => Some(l.wrapping_add(r)),
        BinaryOp::Sub => Some(l.wrapping_sub(r)),
        BinaryOp::Mul => Some(l.wrapping_mul(r)),
        BinaryOp::Div => if divisible(l, r) {
            Some(trunc_div(l as int, r as int) as i32)
        } else {
            None
        },
        BinaryOp::Mod => if divisible(l, r) {
            Some(trunc_rem(l as int, r as int) as i32)
        } else {
            None
        },
        BinaryOp::Lt => Some(bool_int(l < r)),
        BinaryOp::Le => Some(bool_int(l <= r)),
        BinaryOp::Gt => Some(bool_int(l > r)),
        BinaryOp::Ge => Some(bool_int(l >= r)),
        BinaryOp::Eq => Some(bool_int(l == r)),
        BinaryOp::Ne => Some(bool_int(l != r)),
        BinaryOp::And => Some(bool_int(l != 0 && r != 0)),
        BinaryOp::Or => Some(bool_int(l != 0 || r != 0)),
    }
}

/// `&&` and `||` combine booleans; every other operator takes integers.
pub open spec fn is_logical(op: BinaryOp) -> bool {
    op == BinaryOp::And || op == BinaryOp::Or
}

/// Arithmetic yields an integer; comparisons and `&&`, `||` yield a boolean.
pub open spec fn binary_result_ty(op: BinaryOp) -> TyView {
    match op {
        BinaryOp::Add | BinaryOp::Sub | BinaryOp::Mul | BinaryOp::Div | BinaryOp::Mod => TyView::Int,
        _ => TyView::Bool,
    }
}

pub open spec fn binary_legal(op: BinaryOp, lhs: TyView, rhs: TyView) -> bool {
    if is_logical(op) {
        lhs is Bool && rhs is Bool
    } else {
        lhs is Int && rhs is Int
    }
}

pub open spec fn binary_expected(op: BinaryOp) -> ExpectedView {
    if is_logical(op) {
        ExpectedView::Bool
    } else {
        ExpectedView::Int
    }
}

/// The type that a type name stands for.
pub open spec fn ident_ty(kind: TyIdentKind) -> TyView {
    match kind {
        TyIdentKind::Primitive(PrimitiveTy::Integer) => TyView::Int,
        TyIdentKind::Void => TyView::Void,
    }
}

/// An expression as a parser hands it over, or as the checker leaves it:
/// each literal in it is an integer.
pub open spec fn parsed_expr(e: ExprView) -> bool
    decreases e,
{
    match e {
        ExprView::LVal(l) => match l.subs {
            Some(s) => parsed_exprs(s.subs),
            None => true,
        },
        ExprView::Assign(a) => parsed_expr(*a.lhs) && parsed_expr(*a.rhs),
        ExprView::Literal(l) => l.kind is Integer,
        ExprView::Unary(u) => parsed_expr(*u.sub_expr),
        ExprView::Binary(b) => parsed_expr(*b.lhs) && parsed_expr(*b.rhs),
        ExprView::Call(c) => parsed_exprs(c.args),
    }
}

pub open spec fn parsed_exprs(exprs: Seq<ExprView>) -> bool
    decreases exprs,
{
    forall|i: int| 0 <= i < exprs.len() ==> parsed_expr(#[trigger] exprs[i])
}

pub open spec fn parsed_subs(subs: Option<SubsView>) -> bool {
    match subs {
        Some(s) => parsed_exprs(s.subs),
        None => true,
    }
}

/// An initializer as a parser hands it over, or as the checker leaves it:
/// an expression, a list, or the literal that the initializer of a global
/// was folded to.
pub open spec fn parsed_init(init: InitValView) -> bool
    decreases init,
{
    match init.kind {
        InitValKindView::Expr(x) => parsed_expr(x),
        InitValKindView::ArrayVal(vals) => forall|i: int|
            0 <= i < vals.len() ==> parsed_init(#[trigger] vals[i]),
        InitValKindView::Const(_) => true,
    }
}

pub open spec fn parsed_sub_decl(sd: SubDeclView) -> bool {
    &&& parsed_subs(sd.subs)
    &&& match sd.init_val {
        Some(init) => parsed_init(init),
        None => true,
    }
}

pub open spec fn parsed_decl(d: DeclView) -> bool {
    forall|i: int| 0 <= i < d.sub_decls.len() ==> parsed_sub_decl(#[trigger] d.sub_decls[i])
}

pub open spec fn parsed_stmt(s: StmtView) -> bool
    decreases s,
{
    match s {
        StmtView::Expr(e) => parsed_expr(e),
        StmtView::Block(b) => parsed_block(b),
        StmtView::If(i) => {
            &&& parsed_expr(i.cond)
            &&& parsed_stmt(*i.then_block)
            &&& match i.else_block {
                Some(e) => parsed_stmt(*e),
                None => true,
            }
        },
        StmtView::While(w) => parsed_expr(w.cond) && parsed_stmt(*w.body),
        StmtView::Break(_) | StmtView::Continue(_) | StmtView::Empty(_) => true,
        StmtView::Return(r) => match r.val {
            Some(e) => parsed_expr(e),
            None => true,
        },
    }
}

pub open spec fn parsed_block(b: BlockStmtView) -> bool
    decreases b,
{
    forall|i: int| 0 <= i < b.block_items.len() ==> parsed_block_item(#[trigger] b.block_items[i])
}

pub open spec fn parsed_block_item(item: BlockItemView) -> bool
    decreases item,
{
    match item {
        BlockItemView::Stmt(s) => parsed_stmt(s),
        BlockItemView::Decl(d) => parsed_decl(d),
    }
}

pub open spec fn parsed_func(f: AstFuncView) -> bool {
    &&& forall|i: int| 0 <= i < f.params.len() ==> parsed_subs((#[trigger] f.params[i]).subs)
    &&& parsed_block(f.body)
}

pub open spec fn parsed_program_item(item: ProgramItemView) -> bool {
    match item {
        ProgramItemView::Decl(d) => parsed_decl(d),
        ProgramItemView::Func(f) => parsed_func(f),
    }
}

/// A program as a parser hands it over, or as the checker leaves it: each
/// literal in an expression is an integer.
pub open spec fn parsed_program(p: ProgramView) -> bool {
    parsed_program_items(p.program_items)
}

pub open spec fn parsed_program_items(items: Seq<ProgramItemView>) -> bool {
    forall|i: int| 0 <= i < items.len() ==> parsed_program_item(#[trigger] items[i])
}

/// An integer literal is of type `Int`. One that has the type `Bool`
/// already, as the value of a comparison has, keeps it.
pub open spec fn check_literal(l: LiteralExprView) -> LiteralExprView {
    LiteralExprView {
        kind: l.kind,
        span: l.span,
        ty: if l.ty is Bool {
            TyView::Bool
        } else {
            TyView::Int
        },
    }
}

/// The expression after checking, with its constant value if it has one, or
/// the first error.
pub open spec fn check_expr(env: Env, e: ExprView) -> Result<
    (ExprView, Option<LiteralExprView>),
    ErrorView,
>
    decreases e, 1nat,
{
    match e {
        ExprView::LVal(_) => check_lexpr(env, e, false),
        ExprView::Assign(a) => match check_assign(env, a) {
            Ok((a1, value)) => Ok((ExprView::Assign(a1), value)),
            Err(err) => Err(err),
        },
        ExprView::Literal(l) => Ok((ExprView::Literal(check_literal(l)), Some(check_literal(l)))),
        ExprView::Unary(u) => match check_unary(env, u) {
            Ok((u1, value)) => Ok((ExprView::Unary(u1), value)),
            Err(err) => Err(err),
        },
        ExprView::Binary(b) => match check_binary(env, b) {
            Ok((b1, value)) => Ok((ExprView::Binary(b1), value)),
            Err(err) => Err(err),
        },
        ExprView::Call(c) => match check_call(env, c) {
            Ok((c1, value)) => Ok((ExprView::Call(c1), value)),
            Err(err) => Err(err),
        },
    }
}

/// The first error among the expressions from index `from` on.
pub open spec fn exprs_error(env: Env, exprs: Seq<ExprView>, from: nat) -> Option<ErrorView>
    decreases exprs, exprs.len() - from,
{
    if from >= exprs.len() {
        None
    } else {
        match check_expr(env, exprs[from as int]) {
            Err(err) => Some(err),
            Ok(_) => exprs_error(env, exprs, from + 1),
        }
    }
}

/// Each expression after checking, replaced by its value if it folds.
pub open spec fn exprs_checked(env: Env, exprs: Seq<ExprView>) -> Seq<ExprView>
    decreases exprs, 0nat,
{
    Seq::new(
        exprs.len(),
        |i: int|
            if 0 <= i < exprs.len() {
                match check_expr(env, exprs[i]) {
                    Ok((checked, value)) => replaced(checked, value),
                    Err(_) => exprs[i],
                }
            } else {
                arbitrary()
            },
    )
}

/// The type that is left after the subscripts from index `from` on were
/// applied to `cur_ty`, or the first error: of a subscript, of a subscript
/// that is no integer, or of a type that takes no subscript.
pub open spec fn check_subs(env: Env, subs: Seq<ExprView>, from: nat, cur_ty: TyView) -> Result<
    TyView,
    ErrorView,
>
    decreases subs, subs.len() - from,
{
    if from >= subs.len() {
        Ok(cur_ty)
    } else {
        match check_expr(env, subs[from as int]) {
            Err(err) => Err(err),
            Ok((checked, value)) => if !(replaced(checked, value).ty() is Int) {
                Err(mismatch(ExpectedView::Int, replaced(checked, value).ty()))
            } else {
                match cur_ty {
                    TyView::Array { elem_ty, .. } => check_subs(env, subs, from + 1, *elem_ty),
                    TyView::Ptr(elem_ty) => check_subs(env, subs, from + 1, *elem_ty),
                    _ => Err(mismatch(ExpectedView::Array, cur_ty)),
                }
            },
        }
    }
}

/// The constant that a use of the name stands for: the value of a constant
/// that is no array.
pub open spec fn const_value(info: TyInfoView) -> Option<LiteralExprView> {
    if info.is_const && !(info.ty is Array) {
        info.const_val
    } else {
        None
    }
}

pub open spec fn check_lval(env: Env, l: LValView, is_lvalue: bool) -> Result<
    (LValView, Option<LiteralExprView>),
    ErrorView,
>
    decreases l, 0nat,
{
    match scopes_find(env, l.ident.name) {
        None => Err(ErrorView::UnknownName(l.ident.name)),
        Some(info) => if info.is_const && is_lvalue {
            Err(ErrorView::CannotModifyConstValue(l.ident.name))
        } else {
            match l.subs {
                None => Ok(
                    (
                        LValView { ident: l.ident, subs: None, span: l.span, ty: info.ty, is_lvalue },
                        const_value(info),
                    ),
                ),
                Some(subs) => match check_subs(env, subs.subs, 0, info.ty) {
                    Err(err) => Err(err),
                    Ok(elem_ty) => Ok(
                        (
                            LValView {
                                ident: l.ident,
                                subs: Some(
                                    SubsView { subs: exprs_checked(env, subs.subs), span: subs.span },
                                ),
                                span: l.span,
                                ty: elem_ty,
                                is_lvalue,
                            },
                            const_value(info),
                        ),
                    ),
                },
            }
        },
    }
}

/// An expression checked as a place in memory: it must be a name with or
/// without subscripts, and no constant if it is to be written to.
pub open spec fn check_lexpr(env: Env, e: ExprView, is_lvalue: bool) -> Result<
    (ExprView, Option<LiteralExprView>),
    ErrorView,
>
    decreases e, 0nat,
{
    match e {
        ExprView::LVal(l) => match check_lval(env, l, is_lvalue) {
            Ok((l1, value)) => Ok((ExprView::LVal(l1), value)),
            Err(err) => Err(err),
        },
        _ => Err(ErrorView::RequireLValue),
    }
}

/// Whether a place is refused before anything is written to its node: it is
/// no name, the name is unknown, or it is a constant that is to be written
/// to.
pub open spec fn place_refused(env: Env, e: ExprView, is_lvalue: bool) -> bool {
    match e {
        ExprView::LVal(l) => match scopes_find(env, l.ident.name) {
            None => true,
            Some(info) => info.is_const && is_lvalue,
        },
        _ => true,
    }
}

/// An assignment takes the type of its target, which must be an integer or a
/// boolean. Its right side is replaced by its value where it folds; the
/// assignment itself stores, and so is never a constant.
pub open spec fn check_assign(env: Env, a: AssignExprView) -> Result<
    (AssignExprView, Option<LiteralExprView>),
    ErrorView,
>
    decreases a, 0nat,
{
    match check_lexpr(env, *a.lhs, true) {
        Err(err) => Err(err),
        Ok((lhs, _)) => match check_expr(env, *a.rhs) {
            Err(err) => Err(err),
            Ok((r1, value)) => if !(lhs.ty() is Int || lhs.ty() is Bool) {
                Err(mismatch(ExpectedView::IntOrBool, lhs.ty()))
            } else {
                Ok(
                    (
                        AssignExprView {
                            lhs: Box::new(lhs),
                            rhs: Box::new(replaced(r1, value)),
                            allow_assign_const: a.allow_assign_const,
                            span: a.span,
                            ty: lhs.ty(),
                        },
                        None,
                    ),
                )
            },
        },
    }
}

/// The value of a unary operator on a constant.
pub open spec fn fold_unary(op: UnaryOp, operand: LiteralExprView, span: Span, ty: TyView) -> Option<
    LiteralExprView,
> {
    match op {
        UnaryOp::Pos => Some(operand),
        UnaryOp::Neg => match operand.get_int() {
            Some(x) => Some(int_literal(0i32.wrapping_sub(x), span, ty)),
            None => None,
        },
        UnaryOp::Not => match operand.get_int() {
            Some(x) => Some(int_literal(bool_int(x == 0), span, ty)),
            None => None,
        },
    }
}

/// `-` and `+` take an integer and yield one; `!` takes an integer or a
/// boolean and yields the same type.
pub open spec fn unary_type_error(op: UnaryOp, operand: TyView) -> Option<ErrorView> {
    match op {
        UnaryOp::Neg | UnaryOp::Pos => if operand is Int {
            None
        } else {
            Some(mismatch(ExpectedView::Int, operand))
        },
        UnaryOp::Not => if operand is Int || operand is Bool {
            None
        } else {
            Some(mismatch(ExpectedView::IntOrBool, operand))
        },
    }
}

pub open spec fn check_unary(env: Env, u: UnaryExprView) -> Result<
    (UnaryExprView, Option<LiteralExprView>),
    ErrorView,
>
    decreases u, 0nat,
{
    match check_expr(env, *u.sub_expr) {
        Err(err) => Err(err),
        Ok((checked, value)) => {
            let operand = replaced(checked, value);
            match unary_type_error(u.op, operand.ty()) {
                Some(err) => Err(err),
                None => Ok(
                    (
                        UnaryExprView {
                            op: u.op,
                            sub_expr: Box::new(operand),
                            span: u.span,
                            ty: operand.ty(),
                        },
                        match value {
                            Some(lit) => fold_unary(u.op, lit, u.span, operand.ty()),
                            None => None,
                        },
                    ),
                ),
            }
        },
    }
}

/// The value of a binary operator whose operands both stand as integer
/// literals; its span runs from the start of the left one to the end of the
/// right one.
pub open spec fn fold_operands(op: BinaryOp, lhs: ExprView, rhs: ExprView) -> Option<
    LiteralExprView,
> {
    match (lhs, rhs) {
        (ExprView::Literal(l), ExprView::Literal(r)) => match (l.get_int(), r.get_int()) {
            (Some(x), Some(y)) => match fold_binary(op, x, y) {
                Some(value) => Some(
                    int_literal(
                        value,
                        Span { start: l.span.start, end: r.span.end },
                        binary_result_ty(op),
                    ),
                ),
                None => None,
            },
            _ => None,
        },
        _ => None,
    }
}

pub open spec fn check_binary(env: Env, b: BinaryExprView) -> Result<
    (BinaryExprView, Option<LiteralExprView>),
    ErrorView,
>
    decreases b, 0nat,
{
    match check_expr(env, *b.lhs) {
        Err(err) => Err(err),
        Ok((l1, lvalue)) => match check_expr(env, *b.rhs) {
            Err(err) => Err(err),
            Ok((r1, rvalue)) => {
                let lhs = replaced(l1, lvalue);
                let rhs = replaced(r1, rvalue);
                if !binary_legal(b.op, lhs.ty(), rhs.ty()) {
                    Err(mismatch(binary_expected(b.op), lhs.ty()))
                } else {
                    Ok(
                        (
                            BinaryExprView {
                                op: b.op,
                                lhs: Box::new(lhs),
                                rhs: Box::new(rhs),
                                span: b.span,
                                ty: binary_result_ty(b.op),
                            },
                            fold_operands(b.op, lhs, rhs),
                        ),
                    )
                }
            },
        },
    }
}

/// The first argument from index `from` on whose type is not equal to that
/// of its parameter.
pub open spec fn args_mismatch(args: Seq<ExprView>, params: Seq<TyView>, from: nat) -> Option<
    ErrorView,
>
    decreases args.len() - from,
{
    if from >= args.len() || from >= params.len() {
        None
    } else {
        match type_eq_error(args[from as int].ty(), params[from as int]) {
            Some(err) => Some(err),
            None => args_mismatch(args, params, from + 1),
        }
    }
}

/// A call takes the return type of its callee; its arguments must be as many
/// as the parameters, and each of a type equal to its parameter's. A call
/// is never a constant.
pub open spec fn check_call(env: Env, c: CallExprView) -> Result<
    (CallExprView, Option<LiteralExprView>),
    ErrorView,
>
    decreases c, 0nat,
{
    match exprs_error(env, c.args, 0) {
        Some(err) => Err(err),
        None => match scopes_find(env, c.func.name) {
            None => Err(ErrorView::UnknownName(c.func.name)),
            Some(info) => match info.ty {
                TyView::Func { ret_ty, param_tys } => {
                    let args = exprs_checked(env, c.args);
                    if args.len() != param_tys.len() {
                        Err(mismatch(ExpectedView::ArgCount(args.len() as usize), info.ty))
                    } else {
                        match args_mismatch(args, param_tys, 0) {
                            Some(err) => Err(err),
                            None => Ok(
                                (
                                    CallExprView {
                                        func: c.func,
                                        args,
                                        span: c.span,
                                        ty: *ret_ty,
                                    },
                                    None,
                                ),
                            ),
                        }
                    }
                },
                _ => Err(ErrorView::ExpectedFunction(c.func.name)),
            },
        },
    }
}

/// What one array dimension is: the positive constant that the subscript
/// folds to, or the error of a subscript that does not fold or folds to
/// zero or less.
pub open spec fn check_dim(env: Env, sub: ExprView) -> Result<LiteralExprView, ErrorView> {
    match check_expr(env, sub) {
        Err(err) => Err(err),
        Ok((_, value)) => match value {
            None => Err(ErrorView::RequireConstant),
            Some(lit) => match lit.get_int() {
                None => Err(ErrorView::RequireConstant),
                Some(x) => if x <= 0 {
                    Err(ErrorView::IllegalArrayDim)
                } else {
                    Ok(lit)
                },
            },
        },
    }
}

/// The first error among the dimensions from index `from` on.
pub open spec fn dims_error(env: Env, subs: Seq<ExprView>, from: nat) -> Option<ErrorView>
    decreases subs.len() - from,
{
    if from >= subs.len() {
        None
    } else {
        match check_dim(env, subs[from as int]) {
            Err(err) => Some(err),
            Ok(_) => dims_error(env, subs, from + 1),
        }
    }
}

/// Each dimension as the literal it folds to.
pub open spec fn dims_checked(env: Env, subs: Seq<ExprView>) -> Seq<ExprView> {
    Seq::new(
        subs.len(),
        |i: int|
            match check_dim(env, subs[i]) {
                Ok(lit) => ExprView::Literal(lit),
                Err(_) => subs[i],
            },
    )
}

/// The size that a checked dimension stands for.
pub open spec fn dim_size(dim: ExprView) -> usize {
    match dim {
        ExprView::Literal(lit) => match lit.get_int() {
            Some(x) => x as usize,
            None => 0,
        },
        _ => 0,
    }
}

/// The array type of the dimensions from index `from` on over `base`: the
/// first dimension is the outermost.
pub open spec fn array_ty(base: TyView, dims: Seq<ExprView>, from: nat) -> TyView
    decreases dims.len() - from,
{
    if from >= dims.len() {
        base
    } else {
        TyView::Array {
            siz: dim_size(dims[from as int]),
            elem_ty: Box::new(array_ty(base, dims, from + 1)),
        }
    }
}

/// The subscripts of a declarator after checking, and the type that they
/// make of `base`.
pub open spec fn check_declarator(env: Env, base: TyView, subs: Option<SubsView>) -> Result<
    (Option<SubsView>, TyView),
    ErrorView,
> {
    match subs {
        None => Ok((None, base)),
        Some(s) => match dims_error(env, s.subs, 0) {
            Some(err) => Err(err),
            None => {
                let dims = dims_checked(env, s.subs);
                Ok((Some(SubsView { subs: dims, span: s.span }), array_ty(base, dims, 0)))
            },
        },
    }
}

/// A parameter declared with dimensions is a pointer to what the dimensions
/// make of its base type.
pub open spec fn check_param(env: Env, p: FuncParamView) -> Result<FuncParamView, ErrorView> {
    match check_declarator(env, ident_ty(p.ty_ident.kind), p.subs) {
        Err(err) => Err(err),
        Ok((subs, ty)) => Ok(
            FuncParamView {
                ident: p.ident,
                subs,
                ty_ident: p.ty_ident,
                ty: if p.subs is Some {
                    TyView::Ptr(Box::new(ty))
                } else {
                    ty
                },
                span: p.span,
            },
        ),
    }
}

/// The initializer of a global after checking, and the literal it folds to.
/// Every expression in it must be a constant.
pub open spec fn check_const_init(env: Env, init: InitValView) -> Result<
    (InitValView, LiteralExprView),
    ErrorView,
>
    decreases init, 0nat,
{
    match init.kind {
        InitValKindView::Expr(x) => match check_expr(env, x) {
            Err(err) => Err(err),
            Ok((checked, value)) => match value {
                None => Err(ErrorView::RequireConstant),
                Some(lit) => Ok(
                    (
                        InitValView {
                            ty: checked.ty(),
                            kind: InitValKindView::Expr(checked),
                            span: init.span,
                        },
                        lit,
                    ),
                ),
            },
        },
        InitValKindView::ArrayVal(vals) => match const_inits_error(env, vals, 0) {
            Some(err) => Err(err),
            None => Ok(
                (
                    InitValView {
                        ty: init.ty,
                        kind: InitValKindView::ArrayVal(const_inits_checked(env, vals)),
                        span: init.span,
                    },
                    LiteralExprView {
                        kind: LiteralKindView::Array(
                            vals.len() as usize,
                            const_inits_literals(env, vals),
                        ),
                        span: init.span,
                        ty: TyView::Unknown,
                    },
                ),
            ),
        },
        InitValKindView::Const(lit) => Ok((init, lit)),
    }
}

pub open spec fn const_inits_error(env: Env, vals: Seq<InitValView>, from: nat) -> Option<
    ErrorView,
>
    decreases vals, vals.len() - from,
{
    if from >= vals.len() {
        None
    } else {
        match check_const_init(env, vals[from as int]) {
            Err(err) => Some(err),
            Ok(_) => const_inits_error(env, vals, from + 1),
        }
    }
}

pub open spec fn const_inits_checked(env: Env, vals: Seq<InitValView>) -> Seq<InitValView>
    decreases vals, 0nat,
{
    Seq::new(
        vals.len(),
        |i: int|
            if 0 <= i < vals.len() {
                match check_const_init(env, vals[i]) {
                    Ok((checked, _)) => checked,
                    Err(_) => vals[i],
                }
            } else {
                arbitrary()
            },
    )
}

pub open spec fn const_inits_literals(env: Env, vals: Seq<InitValView>) -> Seq<LiteralExprView>
    decreases vals, 0nat,
{
    Seq::new(
        vals.len(),
        |i: int|
            if 0 <= i < vals.len() {
                match check_const_init(env, vals[i]) {
                    Ok((_, lit)) => lit,
                    Err(_) => arbitrary(),
                }
            } else {
                arbitrary()
            },
    )
}

/// The literal that stands for an element that was not written out: the
/// integer zero, or for an array an array of as many zeros as it has
/// elements.
pub open spec fn zero_literal(ty: TyView, span: Span) -> LiteralExprView
    decreases ty,
{
    match ty {
        TyView::Array { siz, elem_ty } => LiteralExprView {
            kind: LiteralKindView::Array(
                siz,
                Seq::new(siz as nat, |i: int| zero_literal(*elem_ty, span)),
            ),
            span,
            ty,
        },
        _ => int_literal(0, span, TyView::Int),
    }
}

/// The elements, followed by as many times `zero` as are missing to make
/// them `siz`.
pub open spec fn padded(vals: Seq<LiteralExprView>, siz: usize, zero: LiteralExprView) -> Seq<
    LiteralExprView,
> {
    if vals.len() >= siz {
        vals
    } else {
        vals + Seq::new((siz - vals.len()) as nat, |i: int| zero)
    }
}

/// A literal made to fit a declared type: an array literal takes the size
/// and the type of the array it initializes, when it has no more elements
/// than that, and so does each array among its elements. The elements that
/// were not written out are added as zeros.
pub open spec fn fix_literal(lit: LiteralExprView, expected: TyView) -> Result<
    LiteralExprView,
    ErrorView,
>
    decreases lit, 0nat,
{
    match (lit.kind, expected) {
        (LiteralKindView::Integer(_), TyView::Int) => Ok(lit),
        (LiteralKindView::Array(siz, vals), TyView::Array { siz: ty_siz, elem_ty }) => if siz
            > ty_siz {
            Err(ErrorView::TooMuchElement)
        } else {
            match fix_literals_error(vals, *elem_ty, 0) {
                Some(err) => Err(err),
                None => Ok(
                    LiteralExprView {
                        kind: LiteralKindView::Array(
                            ty_siz,
                            padded(
                                fix_literals(vals, *elem_ty),
                                ty_siz,
                                zero_literal(*elem_ty, lit.span),
                            ),
                        ),
                        span: lit.span,
                        ty: expected,
                    },
                ),
            }
        },
        _ => match type_eq_error(expected, TyView::Unknown) {
            Some(err) => Err(err),
            None => Ok(lit),
        },
    }
}

pub open spec fn fix_literals_error(vals: Seq<LiteralExprView>, expected: TyView, from: nat) -> Option<
    ErrorView,
>
    decreases vals, vals.len() - from,
{
    if from >= vals.len() {
        None
    } else {
        match fix_literal(vals[from as int], expected) {
            Err(err) => Some(err),
            Ok(_) => fix_literals_error(vals, expected, from + 1),
        }
    }
}

pub open spec fn fix_literals(vals: Seq<LiteralExprView>, expected: TyView) -> Seq<LiteralExprView>
    decreases vals, 0nat,
{
    Seq::new(
        vals.len(),
        |i: int|
            if 0 <= i < vals.len() {
                match fix_literal(vals[i], expected) {
                    Ok(fixed) => fixed,
                    Err(_) => vals[i],
                }
            } else {
                arbitrary()
            },
    )
}

/// The literal of a global's initializer, made to fit the declared type:
/// that of an integer must be one integer of type `Int`.
pub open spec fn fit_const_init(lit: LiteralExprView, ty: TyView) -> Result<
    LiteralExprView,
    ErrorView,
> {
    match ty {
        TyView::Int => if lit.kind is Integer {
            match type_eq_error(ty, lit.ty) {
                Some(err) => Err(err),
                None => Ok(lit),
            }
        } else {
            Err(mismatch(ExpectedView::Type(ty), lit.ty))
        },
        TyView::Array { .. } => fix_literal(lit, ty),
        _ => Err(mismatch(ExpectedView::Int, ty)),
    }
}

/// The initializer of a local after checking: each expression in it is
/// checked, and replaced by its value if it folds.
pub open spec fn check_init(env: Env, init: InitValView) -> Result<InitValView, ErrorView>
    decreases init, 0nat,
{
    match init.kind {
        InitValKindView::Expr(x) => match check_expr(env, x) {
            Err(err) => Err(err),
            Ok((checked, value)) => Ok(
                InitValView {
                    ty: checked.ty(),
                    kind: InitValKindView::Expr(replaced(checked, value)),
                    span: init.span,
                },
            ),
        },
        InitValKindView::ArrayVal(vals) => match inits_error(env, vals, 0) {
            Some(err) => Err(err),
            None => Ok(
                InitValView {
                    ty: init.ty,
                    kind: InitValKindView::ArrayVal(inits_checked(env, vals)),
                    span: init.span,
                },
            ),
        },
        InitValKindView::Const(_) => Ok(init),
    }
}

pub open spec fn inits_error(env: Env, vals: Seq<InitValView>, from: nat) -> Option<ErrorView>
    decreases vals, vals.len() - from,
{
    if from >= vals.len() {
        None
    } else {
        match check_init(env, vals[from as int]) {
            Err(err) => Some(err),
            Ok(_) => inits_error(env, vals, from + 1),
        }
    }
}

pub open spec fn inits_checked(env: Env, vals: Seq<InitValView>) -> Seq<InitValView>
    decreases vals, 0nat,
{
    Seq::new(
        vals.len(),
        |i: int|
            if 0 <= i < vals.len() {
                match check_init(env, vals[i]) {
                    Ok(checked) => checked,
                    Err(_) => vals[i],
                }
            } else {
                arbitrary()
            },
    )
}

/// A checked initializer made to fit a declared type: an expression must be
/// of a type equal to it; a list must have no more elements than the array
/// it initializes, takes that array's type, and each of its elements must
/// fit the element type.
pub open spec fn fix_init(init: InitValView, expected: TyView) -> Result<InitValView, ErrorView>
    decreases init, 0nat,
{
    match (init.kind, expected) {
        (InitValKindView::Expr(x), _) => match type_eq_error(expected, x.ty()) {
            Some(err) => Err(err),
            None => Ok(init),
        },
        (InitValKindView::ArrayVal(vals), TyView::Array { siz, elem_ty }) => if vals.len() > siz {
            Err(ErrorView::TooMuchElement)
        } else {
            match fix_inits_error(vals, *elem_ty, 0) {
                Some(err) => Err(err),
                None => Ok(
                    InitValView {
                        ty: expected,
                        kind: InitValKindView::ArrayVal(fix_inits(vals, *elem_ty)),
                        span: init.span,
                    },
                ),
            }
        },
        _ => match type_eq_error(expected, TyView::Unknown) {
            Some(err) => Err(err),
            None => Ok(init),
        },
    }
}

pub open spec fn fix_inits_error(vals: Seq<InitValView>, expected: TyView, from: nat) -> Option<
    ErrorView,
>
    decreases vals, vals.len() - from,
{
    if from >= vals.len() {
        None
    } else {
        match fix_init(vals[from as int], expected) {
            Err(err) => Some(err),
            Ok(_) => fix_inits_error(vals, expected, from + 1),
        }
    }
}

pub open spec fn fix_inits(vals: Seq<InitValView>, expected: TyView) -> Seq<InitValView>
    decreases vals, 0nat,
{
    Seq::new(
        vals.len(),
        |i: int|
            if 0 <= i < vals.len() {
                match fix_init(vals[i], expected) {
                    Ok(fixed) => fixed,
                    Err(_) => vals[i],
                }
            } else {
                arbitrary()
            },
    )
}

/// The checked initializer of a local, made to fit the declared type.
pub open spec fn fit_init(init: InitValView, ty: TyView) -> Result<InitValView, ErrorView> {
    match ty {
        TyView::Int => match type_eq_error(ty, init.ty) {
            Some(err) => Err(err),
            None => Ok(init),
        },
        TyView::Array { .. } => fix_init(init, ty),
        _ => Err(mismatch(ExpectedView::Int, ty)),
    }
}

/// The scopes after `name` was declared in the innermost one, or the error
/// of a name that this scope holds already.
pub open spec fn declare(env: Env, name: Seq<char>, info: TyInfoView) -> Result<Env, ErrorView> {
    if scopes_can_insert(env, name) {
        Ok(scopes_insert(env, name, info))
    } else {
        Err(ErrorView::DuplicateName(name))
    }
}

/// One declared name of a global declaration after checking, and the scopes
/// with that name in them. The initializer must be constant; the name of a
/// `const` keeps its value.
#[verifier::opaque]
pub open spec fn check_global_sub_decl(env: Env, is_const: bool, base: TyView, sd: SubDeclView) -> Result<
    (SubDeclView, Env),
    ErrorView,
> {
    match check_declarator(env, base, sd.subs) {
        Err(err) => Err(err),
        Ok((subs, ty)) => match sd.init_val {
            Some(init) => match check_const_init(env, init) {
                Err(err) => Err(err),
                Ok((checked, lit)) => match fit_const_init(lit, ty) {
                    Err(err) => Err(err),
                    Ok(fixed) => match declare(
                        env,
                        sd.ident.name,
                        TyInfoView {
                            ty,
                            const_val: if is_const {
                                Some(fixed)
                            } else {
                                None
                            },
                            is_const,
                        },
                    ) {
                        Err(err) => Err(err),
                        Ok(env1) => Ok(
                            (
                                SubDeclView {
                                    ident: sd.ident,
                                    subs,
                                    init_val: Some(
                                        InitValView {
                                            ty: checked.ty,
                                            kind: InitValKindView::Const(fixed),
                                            span: checked.span,
                                        },
                                    ),
                                    span: sd.span,
                                    ty,
                                },
                                env1,
                            ),
                        ),
                    },
                },
            },
            None => if is_const {
                Err(ErrorView::RequireConstant)
            } else {
                match declare(env, sd.ident.name, TyInfoView { ty, const_val: None, is_const }) {
                    Err(err) => Err(err),
                    Ok(env1) => Ok(
                        (
                            SubDeclView { ident: sd.ident, subs, init_val: None, span: sd.span, ty },
                            env1,
                        ),
                    ),
                }
            },
        },
    }
}

/// The value that the name of a local declaration keeps: that of a `const`
/// whose initializer folded to an integer.
pub open spec fn local_const_value(is_const: bool, init: InitValView) -> Option<LiteralExprView> {
    match init.kind {
        InitValKindView::Expr(ExprView::Literal(lit)) => if is_const && lit.ty is Int
            && lit.kind is Integer {
            Some(lit)
        } else {
            None
        },
        _ => None,
    }
}

/// One declared name of a local declaration after checking, and the scopes
/// with that name in them. The name of a `const` keeps its value where the
/// initializer folds to an integer.
#[verifier::opaque]
pub open spec fn check_local_sub_decl(env: Env, is_const: bool, base: TyView, sd: SubDeclView) -> Result<
    (SubDeclView, Env),
    ErrorView,
> {
    match check_declarator(env, base, sd.subs) {
        Err(err) => Err(err),
        Ok((subs, ty)) => match sd.init_val {
            Some(init) => match check_init(env, init) {
                Err(err) => Err(err),
                Ok(checked) => match fit_init(checked, ty) {
                    Err(err) => Err(err),
                    Ok(fixed) => match declare(
                        env,
                        sd.ident.name,
                        TyInfoView { ty, const_val: local_const_value(is_const, fixed), is_const },
                    ) {
                        Err(err) => Err(err),
                        Ok(env1) => Ok(
                            (
                                SubDeclView {
                                    ident: sd.ident,
                                    subs,
                                    init_val: Some(fixed),
                                    span: sd.span,
                                    ty,
                                },
                                env1,
                            ),
                        ),
                    },
                },
            },
            None => if is_const {
                Err(ErrorView::RequireConstant)
            } else {
                match declare(env, sd.ident.name, TyInfoView { ty, const_val: None, is_const }) {
                    Err(err) => Err(err),
                    Ok(env1) => Ok(
                        (
                            SubDeclView { ident: sd.ident, subs, init_val: None, span: sd.span, ty },
                            env1,
                        ),
                    ),
                }
            },
        },
    }
}

pub open spec fn check_sub_decl(env: Env, global: bool, is_const: bool, base: TyView, sd: SubDeclView) -> Result<
    (SubDeclView, Env),
    ErrorView,
> {
    if global {
        check_global_sub_decl(env, is_const, base, sd)
    } else {
        check_local_sub_decl(env, is_const, base, sd)
    }
}

/// The declared names from index `from` on after checking, each checked in
/// the scopes that the ones before it left, and the scopes after the last.
pub open spec fn check_sub_decls(
    env: Env,
    global: bool,
    is_const: bool,
    base: TyView,
    sds: Seq<SubDeclView>,
    from: nat,
) -> Result<(Seq<SubDeclView>, Env), ErrorView>
    decreases sds.len() - from,
{
    if from >= sds.len() {
        Ok((Seq::empty(), env))
    } else {
        match check_sub_decl(env, global, is_const, base, sds[from as int]) {
            Err(err) => Err(err),
            Ok((sd, env1)) => match check_sub_decls(env1, global, is_const, base, sds, from + 1) {
                Err(err) => Err(err),
                Ok((rest, env2)) => Ok((seq![sd] + rest, env2)),
            },
        }
    }
}

/// The scopes after the declared names from index `from` on: each name that
/// checks is in them, up to the first that does not; that one and those
/// after it are not declared.
pub open spec fn sub_decls_env(
    env: Env,
    global: bool,
    is_const: bool,
    base: TyView,
    sds: Seq<SubDeclView>,
    from: nat,
) -> Env
    decreases sds.len() - from,
{
    if from >= sds.len() {
        env
    } else {
        match check_sub_decl(env, global, is_const, base, sds[from as int]) {
            Err(_) => env,
            Ok((_, env1)) => sub_decls_env(env1, global, is_const, base, sds, from + 1),
        }
    }
}

/// The scopes that a declaration leaves behind, whether it checks or not:
/// a name that fails to check is not declared, and ends the declaration.
pub open spec fn decl_env(env: Env, global: bool, d: DeclView) -> Env {
    sub_decls_env(env, global, d.is_const, ident_ty(d.ty_ident.kind), d.sub_decls, 0)
}

/// A declaration after checking, and the scopes with its names in them.
#[verifier::opaque]
pub open spec fn check_decl(env: Env, global: bool, d: DeclView) -> Result<(DeclView, Env), ErrorView> {
    match check_sub_decls(env, global, d.is_const, ident_ty(d.ty_ident.kind), d.sub_decls, 0) {
        Err(err) => Err(err),
        Ok((sub_decls, env1)) => Ok(
            (DeclView { is_const: d.is_const, ty_ident: d.ty_ident, sub_decls, span: d.span }, env1),
        ),
    }
}

/// The condition of an `if` or a `while` must be a boolean.
#[verifier::opaque]
pub open spec fn check_cond(env: Env, cond: ExprView) -> Result<ExprView, ErrorView> {
    match check_expr(env, cond) {
        Err(err) => Err(err),
        Ok((checked, _)) => if checked.ty() is Bool {
            Ok(checked)
        } else {
            Err(mismatch(ExpectedView::Bool, checked.ty()))
        },
    }
}

/// A statement after checking in a function that returns `ret_ty`, or the
/// first error. `break` and `continue` pass wherever they stand.
pub open spec fn check_stmt(env: Env, ret_ty: TyView, s: StmtView) -> Result<StmtView, ErrorView>
    decreases s, 0nat,
{
    match s {
        StmtView::Expr(e) => match check_expr(env, e) {
            Err(err) => Err(err),
            Ok((checked, _)) => Ok(StmtView::Expr(checked)),
        },
        StmtView::Block(b) => match check_block(env, ret_ty, b) {
            Err(err) => Err(err),
            Ok(checked) => Ok(StmtView::Block(checked)),
        },
        StmtView::If(i) => match check_if(env, ret_ty, i) {
            Err(err) => Err(err),
            Ok(checked) => Ok(StmtView::If(checked)),
        },
        StmtView::While(w) => match check_while(env, ret_ty, w) {
            Err(err) => Err(err),
            Ok(checked) => Ok(StmtView::While(checked)),
        },
        StmtView::Break(_) | StmtView::Continue(_) | StmtView::Empty(_) => Ok(s),
        StmtView::Return(r) => match check_return(env, ret_ty, r) {
            Err(err) => Err(err),
            Ok(checked) => Ok(StmtView::Return(checked)),
        },
    }
}

pub open spec fn check_if(env: Env, ret_ty: TyView, i: IfStmtView) -> Result<IfStmtView, ErrorView>
    decreases i, 0nat,
{
    match check_cond(env, i.cond) {
        Err(err) => Err(err),
        Ok(cond) => match check_stmt(env, ret_ty, *i.then_block) {
            Err(err) => Err(err),
            Ok(then_block) => match i.else_block {
                None => Ok(
                    IfStmtView {
                        cond,
                        then_block: Box::new(then_block),
                        else_block: None,
                        span: i.span,
                    },
                ),
                Some(e) => match check_stmt(env, ret_ty, *e) {
                    Err(err) => Err(err),
                    Ok(else_block) => Ok(
                        IfStmtView {
                            cond,
                            then_block: Box::new(then_block),
                            else_block: Some(Box::new(else_block)),
                            span: i.span,
                        },
                    ),
                },
            },
        },
    }
}

pub open spec fn check_while(env: Env, ret_ty: TyView, w: WhileStmtView) -> Result<
    WhileStmtView,
    ErrorView,
>
    decreases w, 0nat,
{
    match check_cond(env, w.cond) {
        Err(err) => Err(err),
        Ok(cond) => match check_stmt(env, ret_ty, *w.body) {
            Err(err) => Err(err),
            Ok(body) => Ok(WhileStmtView { cond, body: Box::new(body), span: w.span }),
        },
    }
}

/// The type of what a `return` gives back, `Void` if it gives nothing, must
/// be equal to the function's return type.
#[verifier::opaque]
pub open spec fn check_return(env: Env, ret_ty: TyView, r: ReturnStmtView) -> Result<
    ReturnStmtView,
    ErrorView,
> {
    match r.val {
        None => match type_eq_error(TyView::Void, ret_ty) {
            Some(err) => Err(err),
            None => Ok(r),
        },
        Some(e) => match check_expr(env, e) {
            Err(err) => Err(err),
            Ok((checked, _)) => match type_eq_error(checked.ty(), ret_ty) {
                Some(err) => Err(err),
                None => Ok(ReturnStmtView { val: Some(checked), span: r.span }),
            },
        },
    }
}

/// A block is checked in a scope of its own.
pub open spec fn check_block(env: Env, ret_ty: TyView, b: BlockStmtView) -> Result<
    BlockStmtView,
    ErrorView,
>
    decreases b, 0nat,
{
    match check_block_items(env.push(Map::empty()), ret_ty, b.block_items, 0) {
        Err(err) => Err(err),
        Ok((block_items, _)) => Ok(BlockStmtView { block_items, span: b.span }),
    }
}

/// The items of a block from index `from` on after checking, each in the
/// scopes that the ones before it left.
pub open spec fn check_block_items(env: Env, ret_ty: TyView, items: Seq<BlockItemView>, from: nat) -> Result<
    (Seq<BlockItemView>, Env),
    ErrorView,
>
    decreases items, items.len() - from,
{
    if from >= items.len() {
        Ok((Seq::empty(), env))
    } else {
        match check_block_item(env, ret_ty, items[from as int]) {
            Err(err) => Err(err),
            Ok((item, env1)) => match check_block_items(env1, ret_ty, items, from + 1) {
                Err(err) => Err(err),
                Ok((rest, env2)) => Ok((seq![item] + rest, env2)),
            },
        }
    }
}

pub open spec fn check_block_item(env: Env, ret_ty: TyView, item: BlockItemView) -> Result<
    (BlockItemView, Env),
    ErrorView,
>
    decreases item, 0nat,
{
    match item {
        BlockItemView::Stmt(s) => match check_stmt(env, ret_ty, s) {
            Err(err) => Err(err),
            Ok(checked) => Ok((BlockItemView::Stmt(checked), env)),
        },
        BlockItemView::Decl(d) => match check_decl(env, false, d) {
            Err(err) => Err(err),
            Ok((checked, env1)) => Ok((BlockItemView::Decl(checked), env1)),
        },
    }
}

pub open spec fn params_error(env: Env, params: Seq<FuncParamView>, from: nat) -> Option<
    ErrorView,
>
    decreases params.len() - from,
{
    if from >= params.len() {
        None
    } else {
        match check_param(env, params[from as int]) {
            Err(err) => Some(err),
            Ok(_) => params_error(env, params, from + 1),
        }
    }
}

pub open spec fn params_checked(env: Env, params: Seq<FuncParamView>) -> Seq<FuncParamView> {
    Seq::new(
        params.len(),
        |i: int|
            match check_param(env, params[i]) {
                Ok(checked) => checked,
                Err(_) => params[i],
            },
    )
}

pub open spec fn param_tys(params: Seq<FuncParamView>) -> Seq<TyView> {
    Seq::new(params.len(), |i: int| params[i].ty)
}

pub open spec fn var_info(ty: TyView) -> TyInfoView {
    TyInfoView { ty, const_val: None, is_const: false }
}

/// The scopes after the parameters from index `from` on were declared.
pub open spec fn declare_params(env: Env, params: Seq<FuncParamView>, from: nat) -> Result<
    Env,
    ErrorView,
>
    decreases params.len() - from,
{
    if from >= params.len() {
        Ok(env)
    } else {
        match declare(env, params[from as int].ident.name, var_info(params[from as int].ty)) {
            Err(err) => Err(err),
            Ok(env1) => declare_params(env1, params, from + 1),
        }
    }
}

/// A function after checking, and the scopes with its name in them. The
/// name is declared before the body is checked, so the body may call it;
/// the parameters live in a scope of their own around the body's.
#[verifier::opaque]
pub open spec fn check_func(env: Env, f: AstFuncView) -> Result<(AstFuncView, Env), ErrorView> {
    let ret_ty = ident_ty(f.ret_ty_ident.kind);
    match params_error(env, f.params, 0) {
        Some(err) => Err(err),
        None => {
            let params = params_checked(env, f.params);
            let func_ty = TyView::Func { ret_ty: Box::new(ret_ty), param_tys: param_tys(params) };
            match declare(env, f.ident.name, var_info(func_ty)) {
                Err(err) => Err(err),
                Ok(env1) => match declare_params(env1.push(Map::empty()), params, 0) {
                    Err(err) => Err(err),
                    Ok(env2) => match check_block(env2, ret_ty, f.body) {
                        Err(err) => Err(err),
                        Ok(body) => Ok(
                            (
                                AstFuncView {
                                    ident: f.ident,
                                    params,
                                    ret_ty_ident: f.ret_ty_ident,
                                    body,
                                    span: f.span,
                                },
                                env1,
                            ),
                        ),
                    },
                },
            }
        },
    }
}

/// Whether a function is refused before anything is declared: one of its
/// parameters does not check, or the innermost scope holds its name
/// already.
pub open spec fn func_refused(env: Env, f: AstFuncView) -> bool {
    params_error(env, f.params, 0) is Some || !scopes_can_insert(env, f.ident.name)
}

/// The return type in force after an item: that of the item if it is a
/// function.
pub open spec fn ret_ty_after(ret_ty: TyView, item: ProgramItemView) -> TyView {
    match item {
        ProgramItemView::Decl(_) => ret_ty,
        ProgramItemView::Func(f) => ident_ty(f.ret_ty_ident.kind),
    }
}

pub open spec fn check_program_item(env: Env, item: ProgramItemView) -> Result<
    (ProgramItemView, Env),
    ErrorView,
> {
    match item {
        ProgramItemView::Decl(d) => match check_decl(env, true, d) {
            Err(err) => Err(err),
            Ok((checked, env1)) => Ok((ProgramItemView::Decl(checked), env1)),
        },
        ProgramItemView::Func(f) => match check_func(env, f) {
            Err(err) => Err(err),
            Ok((checked, env1)) => Ok((ProgramItemView::Func(checked), env1)),
        },
    }
}

/// The items of a program from index `from` on after checking, each in the
/// scopes that the ones before it left.
pub open spec fn check_program_items(env: Env, items: Seq<ProgramItemView>, from: nat) -> Result<
    (Seq<ProgramItemView>, Env),
    ErrorView,
>
    decreases items.len() - from,
{
    if from >= items.len() {
        Ok((Seq::empty(), env))
    } else {
        match check_program_item(env, items[from as int]) {
            Err(err) => Err(err),
            Ok((item, env1)) => match check_program_items(env1, items, from + 1) {
                Err(err) => Err(err),
                Ok((rest, env2)) => Ok((seq![item] + rest, env2)),
            },
        }
    }
}

/// The return type in force after the items up to index `upto`.
pub open spec fn ret_ty_upto(ret_ty: TyView, items: Seq<ProgramItemView>, upto: nat) -> TyView
    decreases upto,
{
    if upto == 0 || upto > items.len() {
        ret_ty
    } else {
        ret_ty_after(ret_ty_upto(ret_ty, items, (upto - 1) as nat), items[upto - 1])
    }
}

pub open spec fn func_ty(ret_ty: TyView, param_tys: Seq<TyView>) -> TyView {
    TyView::Func { ret_ty: Box::new(ret_ty), param_tys }
}

pub open spec fn int_ptr() -> TyView {
    TyView::Ptr(Box::new(TyView::Int))
}

/// The scopes with `name` declared in the innermost one, unless that scope
/// holds the name already.
pub open spec fn declare_if_free(env: Env, name: Seq<char>, info: TyInfoView) -> Env {
    if scopes_can_insert(env, name) {
        scopes_insert(env, name, info)
    } else {
        env
    }
}

/// The scopes with the six functions of the runtime library declared in the
/// innermost one: `getint() -> int`, `getch() -> int`,
/// `getarray(ptr<int>) -> int`, `putint(int)`, `putch(int)`,
/// `putarray(int, ptr<int>) -> int`.
pub open spec fn with_builtins(env: Env) -> Env {
    let env = declare_if_free(env, "getint"@, var_info(func_ty(TyView::Int, seq![])));
    let env = declare_if_free(env, "getch"@, var_info(func_ty(TyView::Int, seq![])));
    let env = declare_if_free(env, "getarray"@, var_info(func_ty(TyView::Int, seq![int_ptr()])));
    let env = declare_if_free(env, "putint"@, var_info(func_ty(TyView::Void, seq![TyView::Int])));
    let env = declare_if_free(env, "putch"@, var_info(func_ty(TyView::Void, seq![TyView::Int])));
    declare_if_free(
        env,
        "putarray"@,
        var_info(func_ty(TyView::Int, seq![TyView::Int, int_ptr()])),
    )
}

/// The runtime library: the name of each of its functions, the type that
/// it returns and the types of its parameters.
pub open spec fn runtime_library() -> Seq<(Seq<char>, TyView, Seq<TyView>)> {
    seq![
        ("getint"@, TyView::Int, seq![]),
        ("getch"@, TyView::Int, seq![]),
        ("getarray"@, TyView::Int, seq![int_ptr()]),
        ("putint"@, TyView::Void, seq![TyView::Int]),
        ("putch"@, TyView::Void, seq![TyView::Int]),
        ("putarray"@, TyView::Int, seq![TyView::Int, int_ptr()]),
    ]
}

/// The scopes with the functions of `library` from index `from` on
/// declared, one after the other.
pub open spec fn declare_library(
    env: Env,
    library: Seq<(Seq<char>, TyView, Seq<TyView>)>,
    from: nat,
) -> Env
    decreases library.len() - from,
{
    if from >= library.len() {
        env
    } else {
        let (name, ret_ty, params) = library[from as int];
        declare_library(
            declare_if_free(env, name, var_info(func_ty(ret_ty, params))),
            library,
            from + 1,
        )
    }
}

/// A program after checking, or the first error. The program is checked in
/// a scope of its own that holds the runtime library.
pub open spec fn check_program(env: Env, p: ProgramView) -> Result<ProgramView, ErrorView> {
    match check_program_items(with_builtins(env.push(Map::empty())), p.program_items, 0) {
        Err(err) => Err(err),
        Ok((program_items, _)) => Ok(ProgramView { program_items }),
    }
}

} // verus!
