use vstd::prelude::*;
use vstd::std_specs::cmp::PartialEqSpecImpl;

use crate::ast_view::{literals_view, ty_eq, tys_view};
use crate::span::Span;

verus! {

#[derive(Debug)]
pub struct Program {
    pub program_items: Vec<ProgramItem>,
}

#[derive(Debug)]
pub enum ProgramItem {
    Decl(Decl),
    Func(AstFunc),
}

#[derive(Debug)]
pub struct Decl {
    pub is_const: bool,
    pub ty_ident: TypeIdent,
    pub sub_decls: Vec<SubDecl>,
    pub span: Span,
}

#[derive(Debug)]
pub struct SubDecl {
    pub ident: Ident,
    pub subs: Option<Subs>,
    pub init_val: Option<InitVal>,
    pub span: Span,
    pub ty: AstTy,
}

#[derive(Debug)]
pub struct InitVal {
    pub ty: AstTy,
    pub kind: InitValKind,
    pub span: Span,
}

#[derive(Debug)]
pub enum InitValKind {
    Expr(Expr),
    ArrayVal(Vec<InitVal>),
    Const(LiteralExpr),
}

#[derive(Debug)]
pub struct AstFunc {
    pub ident: Ident,
    pub params: Vec<FuncParam>,
    pub ret_ty_ident: TypeIdent,
    pub body: BlockStmt,
    pub span: Span,
}

#[derive(Debug)]
pub struct FuncParam {
    pub ident: Ident,
    pub subs: Option<Subs>,
    pub ty_ident: TypeIdent,
    pub ty: AstTy,
    pub span: Span,
}

#[derive(Debug)]
pub struct BlockStmt {
    pub block_items: Vec<BlockItem>,
    pub span: Span,
}

#[derive(Debug)]
pub enum BlockItem {
    Stmt(Stmt),
    Decl(Decl),
}

#[derive(Debug)]
pub enum Stmt {
    Expr(Expr),
    Block(BlockStmt),
    If(IfStmt),
    While(WhileStmt),
    Break(Span),
    Continue(Span),
    Return(ReturnStmt),
    Empty(Span),
}

#[derive(Debug)]
pub struct IfStmt {
    pub cond: Box<Expr>,
    pub then_block: Box<Stmt>,
    pub else_block: Option<Box<Stmt>>,
    pub span: Span,
}

#[derive(Debug)]
pub struct WhileStmt {
    pub cond: Box<Expr>,
    pub body: Box<Stmt>,
    pub span: Span,
}

#[derive(Debug)]
pub struct ReturnStmt {
    pub val: Option<Box<Expr>>,
    pub span: Span,
}

#[derive(Debug)]
pub enum Expr {
    LVal(LVal),
    Assign(AssignExpr),
    Literal(LiteralExpr),
    Unary(UnaryExpr),
    Binary(BinaryExpr),
    Call(CallExpr),
}

#[derive(Debug)]
pub struct AssignExpr {
    pub lhs: Box<Expr>,
    pub rhs: Box<Expr>,
    pub allow_assign_const: bool,
    pub span: Span,
    pub ty: AstTy,
}

#[derive(Debug)]
pub struct LiteralExpr {
    pub kind: LiteralKind,
    pub span: Span,
    pub ty: AstTy,
}

/// What a literal holds: one integer, or an array with its size and its
/// elements. Once an array literal is made to fit the type it initializes,
/// its size is the declared one and the elements that were not written out
/// stand in it as zeros.
#[derive(Debug)]
pub enum LiteralKind {
    Integer(i32),
    Array(usize, Vec<LiteralExpr>),
}

#[derive(Debug)]
pub struct UnaryExpr {
    pub op: UnaryOp,
    pub sub_expr: Box<Expr>,
    pub span: Span,
    pub ty: AstTy,
}

#[derive(Debug)]
pub struct BinaryExpr {
    pub op: BinaryOp,
    pub lhs: Box<Expr>,
    pub rhs: Box<Expr>,
    pub span: Span,
    pub ty: AstTy,
}

#[derive(Debug)]
pub struct CallExpr {
    pub func: Ident,
    pub args: Vec<Expr>,
    pub span: Span,
    pub ty: AstTy,
}

#[derive(Debug)]
pub struct LVal {
    pub ident: Ident,
    pub subs: Option<Subs>,
    pub span: Span,
    pub ty: AstTy,
    pub is_lvalue: bool,
}

#[derive(Debug)]
pub struct Subs {
    pub subs: Vec<Expr>,
    pub span: Span,
}

#[derive(Debug, Clone, Copy, PartialEq, Eq, Structural)]
pub struct TypeIdent {
    pub kind: TyIdentKind,
    pub span: Span,
}

#[derive(Debug, Clone, Copy, PartialEq, Eq, Structural)]
pub enum TyIdentKind {
    Primitive(PrimitiveTy),
    Void,
}

#[derive(Debug, Clone, Copy, PartialEq, Eq, Structural)]
pub enum PrimitiveTy {
    Integer,
}

#[derive(Debug)]
pub struct Ident {
    pub name: String,
    pub span: Span,
}

#[derive(Debug, Copy, Clone, PartialEq, Eq, Structural)]
pub enum UnaryOp {
    Neg,
    Pos,
    Not,
}

#[derive(Debug, Copy, Clone, PartialEq, Eq, Structural)]
pub enum BinaryOp {
    Add,
    Sub,
    Mul,
    Div,
    Mod,
    Gt,
    Lt,
    Ge,
    Le,
    Eq,
    Ne,
    And,
    Or,
}

/// The type of an expression or of a declared name.
///
/// `==` on two types is structural, but for one thing: a pointer and an
/// array are equal as soon as their element types are.
#[derive(Debug, Eq)]
pub enum AstTy {
    Unknown,
    Void,
    Int,
    Bool,
    Func { ret_ty: Box<AstTy>, param_tys: Vec<AstTy> },
    Array { siz: usize, elem_ty: Box<AstTy> },
    Ptr(Box<AstTy>),
}

impl BlockItem {
    pub fn span(&mut self) -> (out: Span)
        ensures
            *final(self) == *old(self),
            out == old(self)@.span(),
    {
        match self {
            BlockItem::Stmt(v) => v.span(),
            BlockItem::Decl(v) => v.span,
        }
    }
}

impl Stmt {
    #[must_use]
    pub fn span(&self) -> (out: Span)
        ensures
            out == self@.span(),
    {
        match self {
            Stmt::Expr(v) => v.span(),
            Stmt::Block(v) => v.span,
            Stmt::If(v) => v.span,
            Stmt::While(v) => v.span,
            Stmt::Break(span) | Stmt::Empty(span) | Stmt::Continue(span) => *span,
            Stmt::Return(v) => v.span,
        }
    }
}

impl Expr {
    #[must_use]
    pub fn span(&self) -> (out: Span)
        ensures
            out == self@.span(),
    {
        match self {
            Expr::LVal(x) => x.span,
            Expr::Assign(x) => x.span,
            Expr::Literal(x) => x.span,
            Expr::Unary(x) => x.span,
            Expr::Binary(x) => x.span,
            Expr::Call(x) => x.span,
        }
    }

    /// The type that the node carries.
    #[must_use]
    pub fn ty(&self) -> (out: AstTy)
        ensures
            out@ == self@.ty(),
    {
        match self {
            Expr::LVal(x) => x.ty.clone(),
            Expr::Assign(x) => x.ty.clone(),
            Expr::Literal(x) => x.ty.clone(),
            Expr::Unary(x) => x.ty.clone(),
            Expr::Binary(x) => x.ty.clone(),
            Expr::Call(x) => x.ty.clone(),
        }
    }

    pub fn as_literal(&self) -> (out: Option<&LiteralExpr>)
        ensures
            match out {
                Some(l) => *self == Expr::Literal(*l),
                None => !(self is Literal),
            },
    {
        match self {
            Expr::Literal(l) => Some(l),
            _ => None,
        }
    }

    pub fn as_l_val(&self) -> (out: Option<&LVal>)
        ensures
            match out {
                Some(l) => *self == Expr::LVal(*l),
                None => !(self is LVal),
            },
    {
        match self {
            Expr::LVal(l) => Some(l),
            _ => None,
        }
    }
}

impl LiteralKind {
    pub fn as_integer(&self) -> (out: Option<&i32>)
        ensures
            match out {
                Some(x) => *self == LiteralKind::Integer(*x),
                None => !(self is Integer),
            },
    {
        match self {
            LiteralKind::Integer(x) => Some(x),
            _ => None,
        }
    }
}

impl LiteralExpr {
    /// The integer of an integer literal.
    #[must_use]
    pub fn get_int(&self) -> (out: Option<i32>)
        ensures
            out == self@.get_int(),
    {
        match &self.kind {
            LiteralKind::Integer(x) => Some(*x),
            _ => None,
        }
    }
}

impl Clone for LiteralExpr {
    fn clone(&self) -> (out: Self)
        ensures
            out@ == self@,
        decreases self,
    {
        let kind = match &self.kind {
            LiteralKind::Integer(x) => LiteralKind::Integer(*x),
            LiteralKind::Array(siz, vals) => {
                let mut copies: Vec<LiteralExpr> = Vec::new();
                let mut i: usize = 0;
                while i < vals.len()
                    invariant
                        i <= vals.len(),
                        copies.len() == i,
                        self.kind matches LiteralKind::Array(_, vs) && vs == vals,
                        forall|j: int| 0 <= j < i ==> #[trigger] copies@[j]@ == vals@[j]@,
                    decreases vals.len() - i,
                {
                    copies.push(vals[i].clone());
                    i += 1;
                }
                let kind = LiteralKind::Array(*siz, copies);
                assert(kind@ == self.kind@) by {
                    assert forall|k: int| 0 <= k < copies@.len() implies literals_view(copies)[k]
                        == literals_view(*vals)[k] by {
                        assert(literals_view(copies)[k] == copies@[k]@);
                    }
                    assert(literals_view(copies) =~= literals_view(*vals));
                }
                kind
            },
        };
        LiteralExpr { kind, span: self.span, ty: self.ty.clone() }
    }
}

impl Clone for LiteralKind {
    fn clone(&self) -> (out: Self)
        ensures
            out@ == self@,
    {
        match self {
            LiteralKind::Integer(x) => LiteralKind::Integer(*x),
            LiteralKind::Array(siz, vals) => {
                let mut copies: Vec<LiteralExpr> = Vec::new();
                let mut i: usize = 0;
                while i < vals.len()
                    invariant
                        i <= vals.len(),
                        copies.len() == i,
                        forall|j: int| 0 <= j < i ==> #[trigger] copies@[j]@ == vals@[j]@,
                    decreases vals.len() - i,
                {
                    copies.push(vals[i].clone());
                    i += 1;
                }
                let kind = LiteralKind::Array(*siz, copies);
                assert(kind@ == self@) by {
                    assert forall|k: int| 0 <= k < copies@.len() implies literals_view(copies)[k]
                        == literals_view(*vals)[k] by {
                        assert(literals_view(copies)[k] == copies@[k]@);
                    }
                    assert(literals_view(copies) =~= literals_view(*vals));
                }
                kind
            },
        }
    }
}

impl AstTy {
    pub fn as_func(&self) -> (out: Option<(&Box<AstTy>, &Vec<AstTy>)>)
        ensures
            match out {
                Some((ret_ty, param_tys)) => *self == (AstTy::Func {
                    ret_ty: *ret_ty,
                    param_tys: *param_tys,
                }),
                None => !(self is Func),
            },
    {
        match self {
            AstTy::Func { ret_ty, param_tys } => Some((ret_ty, param_tys)),
            _ => None,
        }
    }
}

impl Clone for AstTy {
    fn clone(&self) -> (out: Self)
        ensures
            out@ == self@,
        decreases self,
    {
        match self {
            AstTy::Unknown => AstTy::Unknown,
            AstTy::Void => AstTy::Void,
            AstTy::Int => AstTy::Int,
            AstTy::Bool => AstTy::Bool,
            AstTy::Func { ret_ty, param_tys } => {
                let ret = (**ret_ty).clone();
                let mut params: Vec<AstTy> = Vec::new();
                let mut i: usize = 0;
                while i < param_tys.len()
                    invariant
                        i <= param_tys.len(),
                        params.len() == i,
                        self matches AstTy::Func { param_tys: ps, .. } && ps == param_tys,
                        forall|j: int| 0 <= j < i ==> #[trigger] params@[j]@ == param_tys@[j]@,
                    decreases param_tys.len() - i,
                {
                    params.push(param_tys[i].clone());
                    i += 1;
                }
                let out = AstTy::Func { ret_ty: Box::new(ret), param_tys: params };
                assert(out@ == self@) by {
                    assert forall|k: int| 0 <= k < params@.len() implies tys_view(params)[k]
                        == tys_view(*param_tys)[k] by {
                        assert(tys_view(params)[k] == params@[k]@);
                    }
                    assert(tys_view(params) =~= tys_view(*param_tys));
                }
                out
            },
            AstTy::Array { siz, elem_ty } => AstTy::Array {
                siz: *siz,
                elem_ty: Box::new((**elem_ty).clone()),
            },
            AstTy::Ptr(x) => AstTy::Ptr(Box::new((**x).clone())),
        }
    }
}

/// Whether two vectors of types are equal, element by element.
fn tys_eq(xs: &Vec<AstTy>, ys: &Vec<AstTy>) -> (out: bool)
    ensures
        out == {
            &&& xs@.len() == ys@.len()
            &&& forall|i: int| 0 <= i < xs@.len() ==> ty_eq(#[trigger] xs@[i]@, ys@[i]@)
        },
    decreases xs,
{
    if xs.len() != ys.len() {
        return false;
    }
    let mut i: usize = 0;
    while i < xs.len()
        invariant
            i <= xs.len(),
            xs.len() == ys.len(),
            forall|j: int| 0 <= j < i ==> ty_eq(#[trigger] xs@[j]@, ys@[j]@),
        decreases xs.len() - i,
    {
        if !xs[i].eq(&ys[i]) {
            return false;
        }
        i += 1;
    }
    true
}

impl PartialEq for AstTy {
    fn eq(&self, other: &Self) -> (out: bool)
        decreases self,
    {
        match (self, other) {
            (AstTy::Unknown, AstTy::Unknown) | (AstTy::Void, AstTy::Void) | (
                AstTy::Int,
                AstTy::Int,
            ) | (AstTy::Bool, AstTy::Bool) => true,
            (
                AstTy::Func { ret_ty: ret_ty_x, param_tys: param_tys_x },
                AstTy::Func { ret_ty: ret_ty_y, param_tys: param_tys_y },
            ) => {
                let out = (**ret_ty_x).eq(&**ret_ty_y) && tys_eq(param_tys_x, param_tys_y);
                proof {
                    let xs = tys_view(*param_tys_x);
                    let ys = tys_view(*param_tys_y);
                    assert(forall|i: int|
                        0 <= i < xs.len() ==> #[trigger] xs[i] == param_tys_x@[i]@);
                    assert(forall|i: int|
                        0 <= i < ys.len() ==> #[trigger] ys[i] == param_tys_y@[i]@);
                    if xs.len() == ys.len() {
                        if forall|i: int| 0 <= i < xs.len() ==> ty_eq(#[trigger] xs[i], ys[i]) {
                            assert forall|i: int| 0 <= i < xs.len() implies ty_eq(
                                #[trigger] param_tys_x@[i]@,
                                param_tys_y@[i]@,
                            ) by {
                                assert(ty_eq(xs[i], ys[i]));
                            }
                        }
                        if forall|i: int|
                            0 <= i < xs.len() ==> ty_eq(
                                #[trigger] param_tys_x@[i]@,
                                param_tys_y@[i]@,
                            ) {
                            assert forall|i: int| 0 <= i < xs.len() implies ty_eq(
                                #[trigger] xs[i],
                                ys[i],
                            ) by {
                                assert(ty_eq(param_tys_x@[i]@, param_tys_y@[i]@));
                            }
                        }
                    }
                }
                out
            },
            (
                AstTy::Array { siz: siz_x, elem_ty: elem_ty_x },
                AstTy::Array { siz: siz_y, elem_ty: elem_ty_y },
            ) => *siz_x == *siz_y && (**elem_ty_x).eq(&**elem_ty_y),
            (AstTy::Ptr(x), AstTy::Ptr(y)) => (**x).eq(&**y),
            (AstTy::Ptr(x), AstTy::Array { elem_ty: y, .. }) => (**x).eq(&**y),
            (AstTy::Array { elem_ty: x, .. }, AstTy::Ptr(y)) => (**x).eq(&**y),
            _ => false,
        }
    }
}

impl PartialEqSpecImpl for AstTy {
    open spec fn obeys_eq_spec() -> bool {
        true
    }

    open spec fn eq_spec(&self, other: &Self) -> bool {
        ty_eq(self@, other@)
    }
}

} // verus!
