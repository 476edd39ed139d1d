use vstd::prelude::*;

use crate::ast::{AstTy, BlockItem, BlockStmt, Expr, IfStmt, ReturnStmt, Stmt, WhileStmt};
use crate::ast_view::{block_items_view, lemma_block_items_view, BlockItemView, StmtView};
use crate::context::{lemma_env_drop_last, lemma_env_push};
use crate::err::{ErrorView, Expected, SemanticError};
use crate::span::Span;
use crate::type_checker::{assert_type_eq, TypeChecker};
use crate::type_checker::model::{
    check_block, check_block_item, check_block_items, check_cond, check_expr, check_if,
    check_return, check_stmt, check_while, parsed_block, parsed_block_item, parsed_expr,
    parsed_stmt, Env,
};

verus! {

impl TypeChecker {
    /// Checks a block in a scope of its own.
    pub fn visit_block_stmt(&mut self, stmt: &mut BlockStmt) -> (out: Result<(), SemanticError>)
        requires
            parsed_block(old(stmt)@),
        ensures
            final(self).cur_func_ret_ty == old(self).cur_func_ret_ty,
            out is Ok ==> final(self).scopes@.len() == old(self).scopes@.len(),
            match check_block(old(self).env(), old(self).cur_func_ret_ty@, old(stmt)@) {
                Ok(checked) => out is Ok && final(stmt)@ == checked && final(self).env() == old(self).env(),
                Err(err) => out matches Err(e) && e@ == err,
            },
        decreases *old(stmt), 0nat,
    {
        let ghost env0 = self.env();
        let ghost ret_ty = self.cur_func_ret_ty@;
        let ghost old_items = stmt.block_items;
        let ghost old_views = block_items_view(old_items);
        proof {
            lemma_env_push(self.scopes@);
            lemma_block_items_view(old_items);
        }
        self.scopes.push_scope();
        let ghost env1 = self.env();
        let ghost mut done: Seq<BlockItemView> = Seq::empty();

        let mut i: usize = 0;
        while i < stmt.block_items.len()
            invariant
                i <= stmt.block_items.len(),
                stmt.block_items.len() == old_items.len(),
                stmt.span == old(stmt).span,
                old(stmt).block_items == old_items,
                old_views == block_items_view(old_items),
                parsed_block(old(stmt)@),
                env0 == old(self).env(),
                env1 == env0.push(Map::empty()),
                ret_ty == old(self).cur_func_ret_ty@,
                self.scopes@.len() == old(self).scopes@.len() + 1,
                self.env().drop_last() == env0,
                self.cur_func_ret_ty == old(self).cur_func_ret_ty,
                done.len() == i,
                forall|j: int| 0 <= j < i ==> #[trigger] stmt.block_items@[j]@ == done[j],
                forall|j: int|
                    i <= j < stmt.block_items.len() ==> stmt.block_items@[j] == old_items@[j],
                match check_block_items(self.env(), ret_ty, old_views, i as nat) {
                    Ok((rest, env)) => check_block_items(env1, ret_ty, old_views, 0) == Ok::<
                        (Seq<BlockItemView>, Env),
                        ErrorView,
                    >((done + rest, env)),
                    Err(err) => check_block_items(env1, ret_ty, old_views, 0) == Err::<
                        (Seq<BlockItemView>, Env),
                        ErrorView,
                    >(err),
                },
            decreases stmt.block_items.len() - i,
        {
            let ghost env_i = self.env();
            proof {
                lemma_block_items_view(old_items);
                assert(old_views[i as int] == old_items@[i as int]@);
                assert(decreases_to!(old_items => old_items[i as int]));
                assert(old_views == old(stmt)@.block_items);
                assert(parsed_block_item(old_views[i as int]));
            }
            let result = match &mut stmt.block_items[i] {
                BlockItem::Stmt(x) => self.visit_stmt(x),
                BlockItem::Decl(x) => self.visit_decl_stmt(x),
            };
            match result {
                Err(e) => {
                    return Err(e);
                },
                Ok(_) => {},
            }
            proof {
                let item = stmt.block_items@[i as int]@;
                let step = check_block_item(env_i, ret_ty, old_views[i as int]);
                assert(step == Ok::<(BlockItemView, Env), ErrorView>((item, self.env())));
                match check_block_items(self.env(), ret_ty, old_views, (i + 1) as nat) {
                    Ok((rest, env)) => {
                        assert(done + (seq![item] + rest) =~= done.push(item) + rest);
                    },
                    Err(_) => {},
                }
                done = done.push(item);
                assert(self.env().drop_last() == env_i.drop_last());
            }
            i += 1;
        }
        proof {
            lemma_block_items_view(stmt.block_items);
            assert(old_views == old(stmt)@.block_items);
            assert(done + Seq::<BlockItemView>::empty() =~= done);
            assert(block_items_view(stmt.block_items) =~= done);
            lemma_env_drop_last(self.scopes@);
        }
        self.scopes.pop_scope();
        Ok(())
    }

    pub fn visit_stmt(&mut self, stmt: &mut Stmt) -> (out: Result<(), SemanticError>)
        requires
            parsed_stmt(old(stmt)@),
        ensures
            final(self).cur_func_ret_ty == old(self).cur_func_ret_ty,
            out is Ok ==> final(self).scopes@.len() == old(self).scopes@.len(),
            match check_stmt(old(self).env(), old(self).cur_func_ret_ty@, old(stmt)@) {
                Ok(checked) => out is Ok && final(stmt)@ == checked && final(self).env() == old(self).env(),
                Err(err) => out matches Err(e) && e@ == err,
            },
        decreases *old(stmt), 1nat,
    {
        match stmt {
            Stmt::Expr(x) => self.visit_expr_stmt(x),
            Stmt::Block(x) => self.visit_block_stmt(x),
            Stmt::If(x) => self.visit_if_stmt(x),
            Stmt::While(x) => self.visit_while_stmt(x),
            Stmt::Break(x) => self.visit_break_stmt(*x),
            Stmt::Continue(x) => self.visit_continue_stmt(*x),
            Stmt::Return(x) => self.visit_return_stmt(x),
            Stmt::Empty(x) => self.visit_empty_stmt(*x),
        }
    }

    /// Checks an expression that stands as a statement; its value is
    /// dropped and the expression stays.
    pub fn visit_expr_stmt(&mut self, stmt: &mut Expr) -> (out: Result<(), SemanticError>)
        requires
            parsed_expr(old(stmt)@),
        ensures
            final(self).scopes@ == old(self).scopes@,
            final(self).cur_func_ret_ty == old(self).cur_func_ret_ty,
            match check_expr(old(self).env(), old(stmt)@) {
                Ok((checked, _)) => out is Ok && final(stmt)@ == checked,
                Err(err) => out matches Err(e) && e@ == err,
            },
    {
        match self.visit_expr(stmt) {
            Err(e) => Err(e),
            Ok(_) => Ok(()),
        }
    }

    /// Checks a condition, which must be a boolean.
    fn visit_cond(&mut self, cond: &mut Expr) -> (out: Result<(), SemanticError>)
        requires
            parsed_expr(old(cond)@),
        ensures
            final(self).scopes@ == old(self).scopes@,
            final(self).cur_func_ret_ty == old(self).cur_func_ret_ty,
            match check_cond(old(self).env(), old(cond)@) {
                Ok(checked) => out is Ok && final(cond)@ == checked,
                Err(err) => out matches Err(e) && e@ == err,
            },
    {
        reveal(check_cond);
        match self.visit_expr(cond) {
            Err(e) => {
                return Err(e);
            },
            Ok(_) => {},
        }
        let cond_ty = cond.ty();
        if !matches!(cond_ty, AstTy::Bool) {
            return Err(SemanticError::TypeMismatch { expected: Expected::Bool, found: cond_ty });
        }
        Ok(())
    }

    pub fn visit_if_stmt(&mut self, stmt: &mut IfStmt) -> (out: Result<(), SemanticError>)
        requires
            parsed_stmt(StmtView::If(old(stmt)@)),
        ensures
            final(self).cur_func_ret_ty == old(self).cur_func_ret_ty,
            out is Ok ==> final(self).scopes@.len() == old(self).scopes@.len(),
            match check_if(old(self).env(), old(self).cur_func_ret_ty@, old(stmt)@) {
                Ok(checked) => out is Ok && final(stmt)@ == checked && final(self).env() == old(self).env(),
                Err(err) => out matches Err(e) && e@ == err,
            },
        decreases *old(stmt), 0nat,
    {
        match self.visit_cond(&mut stmt.cond) {
            Err(e) => {
                return Err(e);
            },
            Ok(_) => {},
        }
        match self.visit_stmt(&mut stmt.then_block) {
            Err(e) => {
                return Err(e);
            },
            Ok(_) => {},
        }
        if let Some(else_blk) = &mut stmt.else_block {
            match self.visit_stmt(else_blk) {
                Err(e) => {
                    return Err(e);
                },
                Ok(_) => {},
            }
        }
        Ok(())
    }

    pub fn visit_while_stmt(&mut self, stmt: &mut WhileStmt) -> (out: Result<(), SemanticError>)
        requires
            parsed_stmt(StmtView::While(old(stmt)@)),
        ensures
            final(self).cur_func_ret_ty == old(self).cur_func_ret_ty,
            out is Ok ==> final(self).scopes@.len() == old(self).scopes@.len(),
            match check_while(old(self).env(), old(self).cur_func_ret_ty@, old(stmt)@) {
                Ok(checked) => out is Ok && final(stmt)@ == checked && final(self).env() == old(self).env(),
                Err(err) => out matches Err(e) && e@ == err,
            },
        decreases *old(stmt), 0nat,
    {
        match self.visit_cond(&mut stmt.cond) {
            Err(e) => {
                return Err(e);
            },
            Ok(_) => {},
        }
        self.visit_stmt(&mut stmt.body)
    }

    /// A `break` passes here wherever it stands: whether a loop is around
    /// it is for the builder to say.
    pub fn visit_break_stmt(&mut self, _span: Span) -> (out: Result<(), SemanticError>)
        ensures
            *final(self) == *old(self),
            out is Ok,
    {
        Ok(())
    }

    /// A `continue` passes here wherever it stands.
    pub fn visit_continue_stmt(&mut self, _span: Span) -> (out: Result<(), SemanticError>)
        ensures
            *final(self) == *old(self),
            out is Ok,
    {
        Ok(())
    }

    pub fn visit_return_stmt(&mut self, stmt: &mut ReturnStmt) -> (out: Result<(), SemanticError>)
        requires
            parsed_stmt(StmtView::Return(old(stmt)@)),
        ensures
            final(self).scopes@ == old(self).scopes@,
            final(self).cur_func_ret_ty == old(self).cur_func_ret_ty,
            match check_return(old(self).env(), old(self).cur_func_ret_ty@, old(stmt)@) {
                Ok(checked) => out is Ok && final(stmt)@ == checked,
                Err(err) => out matches Err(e) && e@ == err,
            },
    {
        reveal(check_return);
        let ret_val_ty = match &mut stmt.val {
            Some(expr) => {
                match self.visit_expr(expr) {
                    Err(e) => {
                        return Err(e);
                    },
                    Ok(_) => {},
                }
                expr.ty()
            },
            None => AstTy::Void,
        };
        assert_type_eq(&ret_val_ty, &self.cur_func_ret_ty)
    }

    pub fn visit_empty_stmt(&mut self, _span: Span) -> (out: Result<(), SemanticError>)
        ensures
            *final(self) == *old(self),
            out is Ok,
    {
        Ok(())
    }
}

} // verus!
