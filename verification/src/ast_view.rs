//! The mathematical model of the syntax tree: for each node type a view in
//! which vectors are sequences and strings are sequences of characters.

use vstd::prelude::*;

use crate::ast::{
    AssignExpr, AstFunc, AstTy, BinaryExpr, BinaryOp, BlockItem, BlockStmt, CallExpr, Decl, Expr,
    FuncParam, Ident, IfStmt, InitVal, InitValKind, LVal, LiteralExpr, LiteralKind, Program,
    ProgramItem, ReturnStmt, Stmt, SubDecl, Subs, TypeIdent, UnaryExpr, UnaryOp, WhileStmt,
};
use crate::span::Span;

verus! {

pub enum TyView {
    Unknown,
    Void,
    Int,
    Bool,
    Func { ret_ty: Box<TyView>, param_tys: Seq<TyView> },
    Array { siz: usize, elem_ty: Box<TyView> },
    Ptr(Box<TyView>),
}

pub struct IdentView {
    pub name: Seq<char>,
    pub span: Span,
}

pub struct LiteralExprView {
    pub kind: LiteralKindView,
    pub span: Span,
    pub ty: TyView,
}

pub enum LiteralKindView {
    Integer(i32),
    Array(usize, Seq<LiteralExprView>),
}

pub enum ExprView {
    LVal(LValView),
    Assign(AssignExprView),
    Literal(LiteralExprView),
    Unary(UnaryExprView),
    Binary(BinaryExprView),
    Call(CallExprView),
}

pub struct LValView {
    pub ident: IdentView,
    pub subs: Option<SubsView>,
    pub span: Span,
    pub ty: TyView,
    pub is_lvalue: bool,
}

pub struct SubsView {
    pub subs: Seq<ExprView>,
    pub span: Span,
}

pub struct AssignExprView {
    pub lhs: Box<ExprView>,
    pub rhs: Box<ExprView>,
    pub allow_assign_const: bool,
    pub span: Span,
    pub ty: TyView,
}

pub struct UnaryExprView {
    pub op: UnaryOp,
    pub sub_expr: Box<ExprView>,
    pub span: Span,
    pub ty: TyView,
}

pub struct BinaryExprView {
    pub op: BinaryOp,
    pub lhs: Box<ExprView>,
    pub rhs: Box<ExprView>,
    pub span: Span,
    pub ty: TyView,
}

pub struct CallExprView {
    pub func: IdentView,
    pub args: Seq<ExprView>,
    pub span: Span,
    pub ty: TyView,
}

pub struct InitValView {
    pub ty: TyView,
    pub kind: InitValKindView,
    pub span: Span,
}

pub enum InitValKindView {
    Expr(ExprView),
    ArrayVal(Seq<InitValView>),
    Const(LiteralExprView),
}

pub struct SubDeclView {
    pub ident: IdentView,
    pub subs: Option<SubsView>,
    pub init_val: Option<InitValView>,
    pub span: Span,
    pub ty: TyView,
}

pub struct DeclView {
    pub is_const: bool,
    pub ty_ident: TypeIdent,
    pub sub_decls: Seq<SubDeclView>,
    pub span: Span,
}

pub enum StmtView {
    Expr(ExprView),
    Block(BlockStmtView),
    If(IfStmtView),
    While(WhileStmtView),
    Break(Span),
    Continue(Span),
    Return(ReturnStmtView),
    Empty(Span),
}

pub struct BlockStmtView {
    pub block_items: Seq<BlockItemView>,
    pub span: Span,
}

pub enum BlockItemView {
    Stmt(StmtView),
    Decl(DeclView),
}

pub struct IfStmtView {
    pub cond: ExprView,
    pub then_block: Box<StmtView>,
    pub else_block: Option<Box<StmtView>>,
    pub span: Span,
}

pub struct WhileStmtView {
    pub cond: ExprView,
    pub body: Box<StmtView>,
    pub span: Span,
}

pub struct ReturnStmtView {
    pub val: Option<ExprView>,
    pub span: Span,
}

pub struct FuncParamView {
    pub ident: IdentView,
    pub subs: Option<SubsView>,
    pub ty_ident: TypeIdent,
    pub ty: TyView,
    pub span: Span,
}

pub struct AstFuncView {
    pub ident: IdentView,
    pub params: Seq<FuncParamView>,
    pub ret_ty_ident: TypeIdent,
    pub body: BlockStmtView,
    pub span: Span,
}

pub enum ProgramItemView {
    Decl(DeclView),
    Func(AstFuncView),
}

pub struct ProgramView {
    pub program_items: Seq<ProgramItemView>,
}

/// What `==` on two types means: structural equality, but a pointer and an
/// array are equal as soon as their element types are.
pub open spec fn ty_eq(a: TyView, b: TyView) -> bool
    decreases a,
{
    match (a, b) {
        (TyView::Unknown, TyView::Unknown) => true,
        (TyView::Void, TyView::Void) => true,
        (TyView::Int, TyView::Int) => true,
        (TyView::Bool, TyView::Bool) => true,
        (
            TyView::Func { ret_ty: ret_x, param_tys: params_x },
            TyView::Func { ret_ty: ret_y, param_tys: params_y },
        ) => {
            &&& ty_eq(*ret_x, *ret_y)
            &&& params_x.len() == params_y.len()
            &&& forall|i: int| 0 <= i < params_x.len() ==> ty_eq(#[trigger] params_x[i], params_y[i])
        },
        (TyView::Array { siz: siz_x, elem_ty: elem_x }, TyView::Array { siz: siz_y, elem_ty: elem_y }) => {
            siz_x == siz_y && ty_eq(*elem_x, *elem_y)
        },
        (TyView::Ptr(x), TyView::Ptr(y)) => ty_eq(*x, *y),
        (TyView::Ptr(x), TyView::Array { elem_ty: y, .. }) => ty_eq(*x, *y),
        (TyView::Array { elem_ty: x, .. }, TyView::Ptr(y)) => ty_eq(*x, *y),
        _ => false,
    }
}

impl TyView {
    /// No part of the type is `Unknown`.
    pub open spec fn known(self) -> bool
        decreases self,
    {
        match self {
            TyView::Unknown => false,
            TyView::Void | TyView::Int | TyView::Bool => true,
            TyView::Func { ret_ty, param_tys } => {
                &&& ret_ty.known()
                &&& forall|i: int| 0 <= i < param_tys.len() ==> (#[trigger] param_tys[i]).known()
            },
            TyView::Array { elem_ty, .. } => elem_ty.known(),
            TyView::Ptr(elem_ty) => elem_ty.known(),
        }
    }
}

impl LiteralExprView {
    pub open spec fn get_int(self) -> Option<i32> {
        match self.kind {
            LiteralKindView::Integer(x) => Some(x),
            LiteralKindView::Array(..) => None,
        }
    }
}

impl ExprView {
    pub open spec fn span(self) -> Span {
        match self {
            ExprView::LVal(x) => x.span,
            ExprView::Assign(x) => x.span,
            ExprView::Literal(x) => x.span,
            ExprView::Unary(x) => x.span,
            ExprView::Binary(x) => x.span,
            ExprView::Call(x) => x.span,
        }
    }

    pub open spec fn ty(self) -> TyView {
        match self {
            ExprView::LVal(x) => x.ty,
            ExprView::Assign(x) => x.ty,
            ExprView::Literal(x) => x.ty,
            ExprView::Unary(x) => x.ty,
            ExprView::Binary(x) => x.ty,
            ExprView::Call(x) => x.ty,
        }
    }
}

impl StmtView {
    pub open spec fn span(self) -> Span {
        match self {
            StmtView::Expr(v) => v.span(),
            StmtView::Block(v) => v.span,
            StmtView::If(v) => v.span,
            StmtView::While(v) => v.span,
            StmtView::Break(span) | StmtView::Empty(span) | StmtView::Continue(span) => span,
            StmtView::Return(v) => v.span,
        }
    }
}

impl BlockItemView {
    pub open spec fn span(self) -> Span {
        match self {
            BlockItemView::Stmt(v) => v.span(),
            BlockItemView::Decl(v) => v.span,
        }
    }
}

/// The views of a vector of types.
pub open spec fn tys_view(tys: Vec<AstTy>) -> Seq<TyView>
    decreases tys,
{
    Seq::new(
        tys@.len(),
        |i: int|
            if 0 <= i < tys@.len() {
                tys@[i].view()
            } else {
                arbitrary()
            },
    )
}

/// The views of a vector of literals.
pub open spec fn literals_view(vals: Vec<LiteralExpr>) -> Seq<LiteralExprView>
    decreases vals,
{
    Seq::new(
        vals@.len(),
        |i: int|
            if 0 <= i < vals@.len() {
                vals@[i].view()
            } else {
                arbitrary()
            },
    )
}

impl AstTy {
    pub open spec fn view(&self) -> TyView
        decreases self,
    {
        match self {
            AstTy::Unknown => TyView::Unknown,
            AstTy::Void => TyView::Void,
            AstTy::Int => TyView::Int,
            AstTy::Bool => TyView::Bool,
            AstTy::Func { ret_ty, param_tys } => TyView::Func {
                ret_ty: Box::new(ret_ty.view()),
                param_tys: tys_view(*param_tys),
            },
            AstTy::Array { siz, elem_ty } => TyView::Array {
                siz: *siz,
                elem_ty: Box::new(elem_ty.view()),
            },
            AstTy::Ptr(x) => TyView::Ptr(Box::new(x.view())),
        }
    }
}

impl Ident {
    pub open spec fn view(&self) -> IdentView {
        IdentView { name: self.name@, span: self.span }
    }
}

impl LiteralKind {
    pub open spec fn view(&self) -> LiteralKindView
        decreases self,
    {
        match self {
            LiteralKind::Integer(x) => LiteralKindView::Integer(*x),
            LiteralKind::Array(siz, vals) => LiteralKindView::Array(*siz, literals_view(*vals)),
        }
    }
}

impl LiteralExpr {
    pub open spec fn view(&self) -> LiteralExprView
        decreases self,
    {
        LiteralExprView { kind: self.kind.view(), span: self.span, ty: self.ty@ }
    }
}

/// The views of a vector of expressions.
pub open spec fn exprs_view(exprs: Vec<Expr>) -> Seq<ExprView>
    decreases exprs,
{
    Seq::new(
        exprs@.len(),
        |i: int|
            if 0 <= i < exprs@.len() {
                exprs@[i].view()
            } else {
                arbitrary()
            },
    )
}

impl Subs {
    pub open spec fn view(&self) -> SubsView
        decreases self,
    {
        SubsView { subs: exprs_view(self.subs), span: self.span }
    }
}

/// The view of subscripts that may be absent.
pub open spec fn opt_subs_view(subs: Option<Subs>) -> Option<SubsView>
    decreases subs,
{
    match subs {
        Some(s) => Some(s.view()),
        None => None,
    }
}

impl LVal {
    pub open spec fn view(&self) -> LValView
        decreases self,
    {
        LValView {
            ident: self.ident@,
            subs: opt_subs_view(self.subs),
            span: self.span,
            ty: self.ty@,
            is_lvalue: self.is_lvalue,
        }
    }
}

impl AssignExpr {
    pub open spec fn view(&self) -> AssignExprView
        decreases self,
    {
        AssignExprView {
            lhs: Box::new(self.lhs.view()),
            rhs: Box::new(self.rhs.view()),
            allow_assign_const: self.allow_assign_const,
            span: self.span,
            ty: self.ty@,
        }
    }
}

impl UnaryExpr {
    pub open spec fn view(&self) -> UnaryExprView
        decreases self,
    {
        UnaryExprView {
            op: self.op,
            sub_expr: Box::new(self.sub_expr.view()),
            span: self.span,
            ty: self.ty@,
        }
    }
}

impl BinaryExpr {
    pub open spec fn view(&self) -> BinaryExprView
        decreases self,
    {
        BinaryExprView {
            op: self.op,
            lhs: Box::new(self.lhs.view()),
            rhs: Box::new(self.rhs.view()),
            span: self.span,
            ty: self.ty@,
        }
    }
}

impl CallExpr {
    pub open spec fn view(&self) -> CallExprView
        decreases self,
    {
        CallExprView {
            func: self.func@,
            args: exprs_view(self.args),
            span: self.span,
            ty: self.ty@,
        }
    }
}

impl Expr {
    pub open spec fn view(&self) -> ExprView
        decreases self,
    {
        match self {
            Expr::LVal(x) => ExprView::LVal(x.view()),
            Expr::Assign(x) => ExprView::Assign(x.view()),
            Expr::Literal(x) => ExprView::Literal(x@),
            Expr::Unary(x) => ExprView::Unary(x.view()),
            Expr::Binary(x) => ExprView::Binary(x.view()),
            Expr::Call(x) => ExprView::Call(x.view()),
        }
    }
}

/// The views of a vector of initializers.
pub open spec fn init_vals_view(vals: Vec<InitVal>) -> Seq<InitValView>
    decreases vals,
{
    Seq::new(
        vals@.len(),
        |i: int|
            if 0 <= i < vals@.len() {
                vals@[i].view()
            } else {
                arbitrary()
            },
    )
}

impl InitValKind {
    pub open spec fn view(&self) -> InitValKindView
        decreases self,
    {
        match self {
            InitValKind::Expr(x) => InitValKindView::Expr(x@),
            InitValKind::ArrayVal(vals) => InitValKindView::ArrayVal(init_vals_view(*vals)),
            InitValKind::Const(x) => InitValKindView::Const(x@),
        }
    }
}

impl InitVal {
    pub open spec fn view(&self) -> InitValView
        decreases self,
    {
        InitValView { ty: self.ty@, kind: self.kind.view(), span: self.span }
    }
}

impl SubDecl {
    pub open spec fn view(&self) -> SubDeclView {
        SubDeclView {
            ident: self.ident@,
            subs: opt_subs_view(self.subs),
            init_val: match self.init_val {
                Some(v) => Some(v@),
                None => None,
            },
            span: self.span,
            ty: self.ty@,
        }
    }
}

/// The views of the names of a declaration.
pub open spec fn sub_decls_view(sub_decls: Vec<SubDecl>) -> Seq<SubDeclView> {
    Seq::new(sub_decls@.len(), |i: int| sub_decls@[i]@)
}

impl Decl {
    pub open spec fn view(&self) -> DeclView {
        DeclView {
            is_const: self.is_const,
            ty_ident: self.ty_ident,
            sub_decls: sub_decls_view(self.sub_decls),
            span: self.span,
        }
    }
}

/// The views of the items of a block.
pub open spec fn block_items_view(items: Vec<BlockItem>) -> Seq<BlockItemView>
    decreases items,
{
    Seq::new(
        items@.len(),
        |i: int|
            if 0 <= i < items@.len() {
                items@[i].view()
            } else {
                arbitrary()
            },
    )
}

impl BlockItem {
    pub open spec fn view(&self) -> BlockItemView
        decreases self,
    {
        match self {
            BlockItem::Stmt(x) => BlockItemView::Stmt(x.view()),
            BlockItem::Decl(x) => BlockItemView::Decl(x@),
        }
    }
}

impl BlockStmt {
    pub open spec fn view(&self) -> BlockStmtView
        decreases self,
    {
        BlockStmtView { block_items: block_items_view(self.block_items), span: self.span }
    }
}

impl IfStmt {
    pub open spec fn view(&self) -> IfStmtView
        decreases self,
    {
        IfStmtView {
            cond: self.cond@,
            then_block: Box::new(self.then_block.view()),
            else_block: match self.else_block {
                Some(s) => Some(Box::new(s.view())),
                None => None,
            },
            span: self.span,
        }
    }
}

impl WhileStmt {
    pub open spec fn view(&self) -> WhileStmtView
        decreases self,
    {
        WhileStmtView { cond: self.cond@, body: Box::new(self.body.view()), span: self.span }
    }
}

impl ReturnStmt {
    pub open spec fn view(&self) -> ReturnStmtView {
        ReturnStmtView {
            val: match self.val {
                Some(e) => Some(e@),
                None => None,
            },
            span: self.span,
        }
    }
}

impl Stmt {
    pub open spec fn view(&self) -> StmtView
        decreases self,
    {
        match self {
            Stmt::Expr(x) => StmtView::Expr(x@),
            Stmt::Block(x) => StmtView::Block(x.view()),
            Stmt::If(x) => StmtView::If(x.view()),
            Stmt::While(x) => StmtView::While(x.view()),
            Stmt::Break(span) => StmtView::Break(*span),
            Stmt::Continue(span) => StmtView::Continue(*span),
            Stmt::Return(x) => StmtView::Return(x@),
            Stmt::Empty(span) => StmtView::Empty(*span),
        }
    }
}

impl FuncParam {
    pub open spec fn view(&self) -> FuncParamView {
        FuncParamView {
            ident: self.ident@,
            subs: opt_subs_view(self.subs),
            ty_ident: self.ty_ident,
            ty: self.ty@,
            span: self.span,
        }
    }
}

/// The views of the parameters of a function.
pub open spec fn params_view(params: Vec<FuncParam>) -> Seq<FuncParamView> {
    Seq::new(params@.len(), |i: int| params@[i]@)
}

impl AstFunc {
    pub open spec fn view(&self) -> AstFuncView {
        AstFuncView {
            ident: self.ident@,
            params: params_view(self.params),
            ret_ty_ident: self.ret_ty_ident,
            body: self.body@,
            span: self.span,
        }
    }
}

impl ProgramItem {
    pub open spec fn view(&self) -> ProgramItemView {
        match self {
            ProgramItem::Decl(x) => ProgramItemView::Decl(x@),
            ProgramItem::Func(x) => ProgramItemView::Func(x@),
        }
    }
}

/// The views of the items of a program.
pub open spec fn program_items_view(items: Vec<ProgramItem>) -> Seq<ProgramItemView> {
    Seq::new(items@.len(), |i: int| items@[i]@)
}

impl Program {
    pub open spec fn view(&self) -> ProgramView {
        ProgramView {
            program_items: program_items_view(self.program_items),
        }
    }
}

/// Each element of the view of a vector is the view of that element.
pub proof fn lemma_tys_view(tys: Vec<AstTy>)
    ensures
        tys_view(tys).len() == tys@.len(),
        forall|i: int| 0 <= i < tys@.len() ==> #[trigger] tys_view(tys)[i] == tys@[i]@,
{
}

pub proof fn lemma_literals_view(vals: Vec<LiteralExpr>)
    ensures
        literals_view(vals).len() == vals@.len(),
        forall|i: int| 0 <= i < vals@.len() ==> #[trigger] literals_view(vals)[i] == vals@[i]@,
{
}

pub proof fn lemma_exprs_view(exprs: Vec<Expr>)
    ensures
        exprs_view(exprs).len() == exprs@.len(),
        forall|i: int| 0 <= i < exprs@.len() ==> #[trigger] exprs_view(exprs)[i] == exprs@[i]@,
{
}

pub proof fn lemma_init_vals_view(vals: Vec<InitVal>)
    ensures
        init_vals_view(vals).len() == vals@.len(),
        forall|i: int| 0 <= i < vals@.len() ==> #[trigger] init_vals_view(vals)[i] == vals@[i]@,
{
}

pub proof fn lemma_block_items_view(items: Vec<BlockItem>)
    ensures
        block_items_view(items).len() == items@.len(),
        forall|i: int| 0 <= i < items@.len() ==> #[trigger] block_items_view(items)[i] == items@[i]@,
{
}

} // verus!
