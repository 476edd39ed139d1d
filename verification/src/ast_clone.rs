//! Copies of syntax trees: a copy has the view of what it was made from.

use vstd::prelude::*;

use crate::ast::{
    AssignExpr, AstFunc, BinaryExpr, BlockItem, BlockStmt, CallExpr, Decl, Expr, FuncParam, Ident,
    IfStmt, InitVal, InitValKind, LVal, Program, ProgramItem, ReturnStmt, Stmt, SubDecl, Subs,
    UnaryExpr, WhileStmt,
};
use crate::ast_view::{
    block_items_view, exprs_view, init_vals_view, lemma_block_items_view, lemma_exprs_view,
    lemma_init_vals_view, opt_subs_view, params_view, program_items_view, sub_decls_view,
};

verus! {

impl Clone for Ident {
    fn clone(&self) -> (out: Self)
        ensures
            out == *self,
    {
        Ident { name: self.name.clone(), span: self.span }
    }
}

fn clone_exprs(exprs: &Vec<Expr>) -> (out: Vec<Expr>)
    ensures
        exprs_view(out) == exprs_view(*exprs),
    decreases exprs, 0nat,
{
    let mut copies: Vec<Expr> = Vec::new();
    let mut i: usize = 0;
    while i < exprs.len()
        invariant
            i <= exprs.len(),
            copies.len() == i,
            forall|j: int| 0 <= j < i ==> #[trigger] copies@[j]@ == exprs@[j]@,
        decreases exprs.len() - i,
    {
        proof {
            assert(decreases_to!(exprs => exprs[i as int]));
        }
        copies.push(clone_expr(&exprs[i]));
        i += 1;
    }
    proof {
        lemma_exprs_view(copies);
        lemma_exprs_view(*exprs);
        assert(exprs_view(copies) =~= exprs_view(*exprs));
    }
    copies
}

fn clone_opt_subs(subs: &Option<Subs>) -> (out: Option<Subs>)
    ensures
        opt_subs_view(out) == opt_subs_view(*subs),
    decreases subs, 1nat,
{
    match subs {
        Some(s) => Some(Subs { subs: clone_exprs(&s.subs), span: s.span }),
        None => None,
    }
}

fn clone_expr(expr: &Expr) -> (out: Expr)
    ensures
        out@ == expr@,
    decreases expr, 0nat,
{
    match expr {
        Expr::LVal(x) => Expr::LVal(
            LVal {
                ident: x.ident.clone(),
                subs: clone_opt_subs(&x.subs),
                span: x.span,
                ty: x.ty.clone(),
                is_lvalue: x.is_lvalue,
            },
        ),
        Expr::Assign(x) => Expr::Assign(
            AssignExpr {
                lhs: Box::new(clone_expr(&x.lhs)),
                rhs: Box::new(clone_expr(&x.rhs)),
                allow_assign_const: x.allow_assign_const,
                span: x.span,
                ty: x.ty.clone(),
            },
        ),
        Expr::Literal(x) => Expr::Literal(x.clone()),
        Expr::Unary(x) => Expr::Unary(
            UnaryExpr {
                op: x.op,
                sub_expr: Box::new(clone_expr(&x.sub_expr)),
                span: x.span,
                ty: x.ty.clone(),
            },
        ),
        Expr::Binary(x) => Expr::Binary(
            BinaryExpr {
                op: x.op,
                lhs: Box::new(clone_expr(&x.lhs)),
                rhs: Box::new(clone_expr(&x.rhs)),
                span: x.span,
                ty: x.ty.clone(),
            },
        ),
        Expr::Call(x) => Expr::Call(
            CallExpr {
                func: x.func.clone(),
                args: clone_exprs(&x.args),
                span: x.span,
                ty: x.ty.clone(),
            },
        ),
    }
}

fn clone_init_vals(vals: &Vec<InitVal>) -> (out: Vec<InitVal>)
    ensures
        init_vals_view(out) == init_vals_view(*vals),
    decreases vals, 0nat,
{
    let mut copies: Vec<InitVal> = Vec::new();
    let mut i: usize = 0;
    while i < vals.len()
        invariant
            i <= vals.len(),
            copies.len() == i,
            forall|j: int| 0 <= j < i ==> #[trigger] copies@[j]@ == vals@[j]@,
        decreases vals.len() - i,
    {
        proof {
            assert(decreases_to!(vals => vals[i as int]));
        }
        copies.push(clone_init_val(&vals[i]));
        i += 1;
    }
    proof {
        lemma_init_vals_view(copies);
        lemma_init_vals_view(*vals);
        assert(init_vals_view(copies) =~= init_vals_view(*vals));
    }
    copies
}

fn clone_init_val(init_val: &InitVal) -> (out: InitVal)
    ensures
        out@ == init_val@,
    decreases init_val, 0nat,
{
    let kind = match &init_val.kind {
        InitValKind::Expr(x) => InitValKind::Expr(clone_expr(x)),
        InitValKind::ArrayVal(vals) => InitValKind::ArrayVal(clone_init_vals(vals)),
        InitValKind::Const(x) => InitValKind::Const(x.clone()),
    };
    InitVal { ty: init_val.ty.clone(), kind, span: init_val.span }
}

fn clone_sub_decl(sub_decl: &SubDecl) -> (out: SubDecl)
    ensures
        out@ == sub_decl@,
{
    SubDecl {
        ident: sub_decl.ident.clone(),
        subs: clone_opt_subs(&sub_decl.subs),
        init_val: match &sub_decl.init_val {
            Some(v) => Some(clone_init_val(v)),
            None => None,
        },
        span: sub_decl.span,
        ty: sub_decl.ty.clone(),
    }
}

fn clone_decl(decl: &Decl) -> (out: Decl)
    ensures
        out@ == decl@,
{
    let mut copies: Vec<SubDecl> = Vec::new();
    let mut i: usize = 0;
    while i < decl.sub_decls.len()
        invariant
            i <= decl.sub_decls.len(),
            copies.len() == i,
            forall|j: int| 0 <= j < i ==> #[trigger] copies@[j]@ == decl.sub_decls@[j]@,
        decreases decl.sub_decls.len() - i,
    {
        copies.push(clone_sub_decl(&decl.sub_decls[i]));
        i += 1;
    }
    proof {
        assert(sub_decls_view(copies) =~= sub_decls_view(decl.sub_decls));
    }
    Decl { is_const: decl.is_const, ty_ident: decl.ty_ident, sub_decls: copies, span: decl.span }
}

fn clone_block_items(items: &Vec<BlockItem>) -> (out: Vec<BlockItem>)
    ensures
        block_items_view(out) == block_items_view(*items),
    decreases items, 0nat,
{
    let mut copies: Vec<BlockItem> = Vec::new();
    let mut i: usize = 0;
    while i < items.len()
        invariant
            i <= items.len(),
            copies.len() == i,
            forall|j: int| 0 <= j < i ==> #[trigger] copies@[j]@ == items@[j]@,
        decreases items.len() - i,
    {
        proof {
            assert(decreases_to!(items => items[i as int]));
        }
        let copy = match &items[i] {
            BlockItem::Stmt(x) => BlockItem::Stmt(clone_stmt(x)),
            BlockItem::Decl(x) => BlockItem::Decl(clone_decl(x)),
        };
        copies.push(copy);
        i += 1;
    }
    proof {
        lemma_block_items_view(copies);
        lemma_block_items_view(*items);
        assert(block_items_view(copies) =~= block_items_view(*items));
    }
    copies
}

fn clone_block(block: &BlockStmt) -> (out: BlockStmt)
    ensures
        out@ == block@,
    decreases block, 1nat,
{
    BlockStmt { block_items: clone_block_items(&block.block_items), span: block.span }
}

fn clone_stmt(stmt: &Stmt) -> (out: Stmt)
    ensures
        out@ == stmt@,
    decreases stmt, 0nat,
{
    match stmt {
        Stmt::Expr(x) => Stmt::Expr(clone_expr(x)),
        Stmt::Block(x) => Stmt::Block(clone_block(x)),
        Stmt::If(x) => Stmt::If(
            IfStmt {
                cond: Box::new(clone_expr(&x.cond)),
                then_block: Box::new(clone_stmt(&x.then_block)),
                else_block: match &x.else_block {
                    Some(s) => Some(Box::new(clone_stmt(s))),
                    None => None,
                },
                span: x.span,
            },
        ),
        Stmt::While(x) => Stmt::While(
            WhileStmt {
                cond: Box::new(clone_expr(&x.cond)),
                body: Box::new(clone_stmt(&x.body)),
                span: x.span,
            },
        ),
        Stmt::Break(span) => Stmt::Break(*span),
        Stmt::Continue(span) => Stmt::Continue(*span),
        Stmt::Return(x) => Stmt::Return(
            ReturnStmt {
                val: match &x.val {
                    Some(e) => Some(Box::new(clone_expr(e))),
                    None => None,
                },
                span: x.span,
            },
        ),
        Stmt::Empty(span) => Stmt::Empty(*span),
    }
}

fn clone_param(param: &FuncParam) -> (out: FuncParam)
    ensures
        out@ == param@,
{
    FuncParam {
        ident: param.ident.clone(),
        subs: clone_opt_subs(&param.subs),
        ty_ident: param.ty_ident,
        ty: param.ty.clone(),
        span: param.span,
    }
}

fn clone_func(func: &AstFunc) -> (out: AstFunc)
    ensures
        out@ == func@,
{
    let mut copies: Vec<FuncParam> = Vec::new();
    let mut i: usize = 0;
    while i < func.params.len()
        invariant
            i <= func.params.len(),
            copies.len() == i,
            forall|j: int| 0 <= j < i ==> #[trigger] copies@[j]@ == func.params@[j]@,
        decreases func.params.len() - i,
    {
        copies.push(clone_param(&func.params[i]));
        i += 1;
    }
    proof {
        assert(params_view(copies) =~= params_view(func.params));
    }
    AstFunc {
        ident: func.ident.clone(),
        params: copies,
        ret_ty_ident: func.ret_ty_ident,
        body: clone_block(&func.body),
        span: func.span,
    }
}

fn clone_program(program: &Program) -> (out: Program)
    ensures
        out@ == program@,
{
    let mut copies: Vec<ProgramItem> = Vec::new();
    let mut i: usize = 0;
    while i < program.program_items.len()
        invariant
            i <= program.program_items.len(),
            copies.len() == i,
            forall|j: int| 0 <= j < i ==> #[trigger] copies@[j]@ == program.program_items@[j]@,
        decreases program.program_items.len() - i,
    {
        let copy = match &program.program_items[i] {
            ProgramItem::Decl(x) => ProgramItem::Decl(clone_decl(x)),
            ProgramItem::Func(x) => ProgramItem::Func(clone_func(x)),
        };
        copies.push(copy);
        i += 1;
    }
    proof {
        assert(program_items_view(copies) =~= program_items_view(program.program_items));
    }
    Program { program_items: copies }
}

impl Clone for Expr {
    fn clone(&self) -> (out: Self)
        ensures
            out@ == self@,
    {
        clone_expr(self)
    }
}

impl Clone for Subs {
    fn clone(&self) -> (out: Self)
        ensures
            out@ == self@,
    {
        Subs { subs: clone_exprs(&self.subs), span: self.span }
    }
}

impl Clone for LVal {
    fn clone(&self) -> (out: Self)
        ensures
            out@ == self@,
    {
        LVal {
            ident: self.ident.clone(),
            subs: clone_opt_subs(&self.subs),
            span: self.span,
            ty: self.ty.clone(),
            is_lvalue: self.is_lvalue,
        }
    }
}

impl Clone for AssignExpr {
    fn clone(&self) -> (out: Self)
        ensures
            out@ == self@,
    {
        AssignExpr {
            lhs: Box::new(clone_expr(&self.lhs)),
            rhs: Box::new(clone_expr(&self.rhs)),
            allow_assign_const: self.allow_assign_const,
            span: self.span,
            ty: self.ty.clone(),
        }
    }
}

impl Clone for UnaryExpr {
    fn clone(&self) -> (out: Self)
        ensures
            out@ == self@,
    {
        UnaryExpr {
            op: self.op,
            sub_expr: Box::new(clone_expr(&self.sub_expr)),
            span: self.span,
            ty: self.ty.clone(),
        }
    }
}

impl Clone for BinaryExpr {
    fn clone(&self) -> (out: Self)
        ensures
            out@ == self@,
    {
        BinaryExpr {
            op: self.op,
            lhs: Box::new(clone_expr(&self.lhs)),
            rhs: Box::new(clone_expr(&self.rhs)),
            span: self.span,
            ty: self.ty.clone(),
        }
    }
}

impl Clone for CallExpr {
    fn clone(&self) -> (out: Self)
        ensures
            out@ == self@,
    {
        CallExpr {
            func: self.func.clone(),
            args: clone_exprs(&self.args),
            span: self.span,
            ty: self.ty.clone(),
        }
    }
}

impl Clone for InitValKind {
    fn clone(&self) -> (out: Self)
        ensures
            out@ == self@,
    {
        match self {
            InitValKind::Expr(x) => InitValKind::Expr(clone_expr(x)),
            InitValKind::ArrayVal(vals) => InitValKind::ArrayVal(clone_init_vals(vals)),
            InitValKind::Const(x) => InitValKind::Const(x.clone()),
        }
    }
}

impl Clone for BlockItem {
    fn clone(&self) -> (out: Self)
        ensures
            out@ == self@,
    {
        match self {
            BlockItem::Stmt(x) => BlockItem::Stmt(clone_stmt(x)),
            BlockItem::Decl(x) => BlockItem::Decl(clone_decl(x)),
        }
    }
}

impl Clone for IfStmt {
    fn clone(&self) -> (out: Self)
        ensures
            out@ == self@,
    {
        IfStmt {
            cond: Box::new(clone_expr(&self.cond)),
            then_block: Box::new(clone_stmt(&self.then_block)),
            else_block: match &self.else_block {
                Some(s) => Some(Box::new(clone_stmt(s))),
                None => None,
            },
            span: self.span,
        }
    }
}

impl Clone for WhileStmt {
    fn clone(&self) -> (out: Self)
        ensures
            out@ == self@,
    {
        WhileStmt {
            cond: Box::new(clone_expr(&self.cond)),
            body: Box::new(clone_stmt(&self.body)),
            span: self.span,
        }
    }
}

impl Clone for ReturnStmt {
    fn clone(&self) -> (out: Self)
        ensures
            out@ == self@,
    {
        ReturnStmt {
            val: match &self.val {
                Some(e) => Some(Box::new(clone_expr(e))),
                None => None,
            },
            span: self.span,
        }
    }
}

impl Clone for ProgramItem {
    fn clone(&self) -> (out: Self)
        ensures
            out@ == self@,
    {
        match self {
            ProgramItem::Decl(x) => ProgramItem::Decl(clone_decl(x)),
            ProgramItem::Func(x) => ProgramItem::Func(clone_func(x)),
        }
    }
}

impl Clone for InitVal {
    fn clone(&self) -> (out: Self)
        ensures
            out@ == self@,
    {
        clone_init_val(self)
    }
}

impl Clone for SubDecl {
    fn clone(&self) -> (out: Self)
        ensures
            out@ == self@,
    {
        clone_sub_decl(self)
    }
}

impl Clone for Decl {
    fn clone(&self) -> (out: Self)
        ensures
            out@ == self@,
    {
        clone_decl(self)
    }
}

impl Clone for BlockStmt {
    fn clone(&self) -> (out: Self)
        ensures
            out@ == self@,
    {
        clone_block(self)
    }
}

impl Clone for Stmt {
    fn clone(&self) -> (out: Self)
        ensures
            out@ == self@,
    {
        clone_stmt(self)
    }
}

impl Clone for FuncParam {
    fn clone(&self) -> (out: Self)
        ensures
            out@ == self@,
    {
        clone_param(self)
    }
}

impl Clone for AstFunc {
    fn clone(&self) -> (out: Self)
        ensures
            out@ == self@,
    {
        clone_func(self)
    }
}

impl Clone for Program {
    fn clone(&self) -> (out: Self)
        ensures
            out@ == self@,
    {
        clone_program(self)
    }
}

} // verus!
