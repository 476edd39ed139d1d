use vstd::arithmetic::div_mod::{
    lemma_div_basics, lemma_div_decreases, lemma_div_nonincreasing, lemma_div_pos_is_pos,
    lemma_fundamental_div_mod, lemma_mod_bound,
};
use vstd::prelude::*;

use crate::ast::{
    AssignExpr, AstTy, BinaryExpr, BinaryOp, CallExpr, Expr, FuncParam, InitVal, InitValKind,
    LiteralExpr, LiteralKind, PrimitiveTy, Subs, TyIdentKind, TypeIdent, UnaryExpr, UnaryOp,
};
use crate::ast_view::{
    exprs_view, init_vals_view, lemma_exprs_view, lemma_init_vals_view, lemma_literals_view,
    lemma_tys_view, literals_view, opt_subs_view, tys_view, ExprView, LiteralExprView, TyView,
};
use crate::collect::{all_ok, first_err_at, try_collect};
use crate::context::{env_view, lemma_env_find, opt_literal_view, TyInfo};
use crate::err::{ErrorView, Expected, SemanticError};
use crate::scope::ScopeBuilder;
use crate::span::Span;
use crate::type_checker::model::{
    Env, args_mismatch, array_ty, bool_int, check_assign, check_binary, check_call,
    check_const_init, check_declarator, check_expr, check_init, check_lexpr, check_literal,
    check_lval, check_param, check_subs, check_unary, const_inits_checked, const_inits_error,
    const_inits_literals, dims_checked, dims_error, divisible, exprs_checked, exprs_error,
    fix_init, fix_inits, fix_inits_error, fix_literal, fix_literals, fix_literals_error,
    padded, zero_literal,
    fold_binary, ident_ty, inits_checked, inits_error, is_logical, parsed_expr, parsed_exprs, place_refused,
    parsed_init, parsed_subs, trunc_div, trunc_rem, type_eq_error,
};

mod decl;
pub mod model;
pub mod refold;
mod stmt;
pub mod typed;
pub mod typed_program;

verus! {

/// The type checker: the scopes of the names declared so far, and the
/// return type of the function that is being checked.
pub struct TypeChecker {
    pub scopes: ScopeBuilder<TyInfo>,
    pub cur_func_ret_ty: AstTy,
}

/// Whether what a visit of a node returned, and the node it left, are what
/// the model says: the checked node and its constant value, or the error.
pub open spec fn outcome<T>(
    model: Result<(T, Option<LiteralExprView>), ErrorView>,
    out: Result<Option<LiteralExpr>, SemanticError>,
    node: T,
) -> bool {
    match model {
        Ok((checked, value)) => out matches Ok(lit) && node == checked && opt_literal_view(lit)
            == value,
        Err(err) => out matches Err(e) && e@ == err,
    }
}

/// Two types that must be equal: the error says which type was there and
/// which one it met.
pub fn assert_type_eq(expected: &AstTy, found: &AstTy) -> (out: Result<(), SemanticError>)
    ensures
        match type_eq_error(expected@, found@) {
            None => out is Ok,
            Some(err) => out matches Err(e) && e@ == err,
        },
{
    if expected != found {
        return Err(
            SemanticError::TypeMismatch {
                expected: Expected::Type(expected.clone()),
                found: found.clone(),
            },
        );
    }
    Ok(())
}

fn is_logical_op(op: BinaryOp) -> (out: bool)
    ensures
        out == is_logical(op),
{
    matches!(op, BinaryOp::And | BinaryOp::Or)
}

fn int_of(b: bool) -> (out: i32)
    ensures
        out == bool_int(b),
{
    if b {
        1
    } else {
        0
    }
}

/// Folds a binary operator on two constants.
pub fn fold_binary_op(op: BinaryOp, l: i32, r: i32) -> (out: Option<i32>)
    ensures
        out == fold_binary(op, l, r),
{
    match op {
        BinaryOp::Add => Some(l.wrapping_add(r)),
        BinaryOp::Sub => Some(l.wrapping_sub(r)),
        BinaryOp::Mul => Some(l.wrapping_mul(r)),
        BinaryOp::Div => {
            proof {
                lemma_checked_div(l, r);
            }
            l.checked_div(r)
        },
        BinaryOp::Mod => {
            proof {
                lemma_checked_rem(l, r);
            }
            l.checked_rem(r)
        },
        BinaryOp::Lt => Some(int_of(l < r)),
        BinaryOp::Le => Some(int_of(l <= r)),
        BinaryOp::Gt => Some(int_of(l > r)),
        BinaryOp::Ge => Some(int_of(l >= r)),
        BinaryOp::Eq => Some(int_of(l == r)),
        BinaryOp::Ne => Some(int_of(l != r)),
        BinaryOp::And => Some(int_of(l != 0 && r != 0)),
        BinaryOp::Or => Some(int_of(l != 0 || r != 0)),
    }
}

/// The quotient that the machine computes is the one rounded towards zero,
/// where it exists.
pub proof fn lemma_checked_div(l: i32, r: i32)
    ensures
        l.checked_div(r) == if divisible(l, r) {
            Some(trunc_div(l as int, r as int) as i32)
        } else {
            None
        },
        divisible(l, r) ==> i32::MIN <= trunc_div(l as int, r as int) <= i32::MAX,
{
    let x = l as int;
    let d = r as int;
    if d != 0 {
        let ax = if x >= 0 {
            x
        } else {
            -x
        };
        let ad = if d > 0 {
            d
        } else {
            -d
        };
        lemma_div_pos_is_pos(ax, ad);
        lemma_div_nonincreasing(ax, ad);
        lemma_div_basics(ad);
        lemma_div_basics(ax);
        if ax > 0 && ad > 1 {
            lemma_div_decreases(ax, ad);
        }
        assert(x * -1 == -x);
        assert(d * -1 == -d);
        assert(((-x) / d) * -1 == -((-x) / d));
        assert((x / (-d)) * -1 == -(x / (-d)));
    }
}

/// The remainder that the machine computes is the one that goes with the
/// quotient rounded towards zero, where that exists.
pub proof fn lemma_checked_rem(l: i32, r: i32)
    ensures
        l.checked_rem(r) == if divisible(l, r) {
            Some(trunc_rem(l as int, r as int) as i32)
        } else {
            None
        },
        divisible(l, r) ==> i32::MIN <= trunc_rem(l as int, r as int) <= i32::MAX,
{
    let x = l as int;
    let d = r as int;
    if d != 0 {
        let ax = if x >= 0 {
            x
        } else {
            -x
        };
        let ad = if d > 0 {
            d
        } else {
            -d
        };
        lemma_fundamental_div_mod(ax, ad);
        lemma_mod_bound(ax, ad);
        lemma_div_pos_is_pos(ax, ad);
        lemma_div_basics(ad);
        let q = ax / ad;
        assert(ad * q + ax % ad == ax);
        assert(d * (-q) == -(d * q)) by (nonlinear_arith);
        assert((-d) * q == -(d * q)) by (nonlinear_arith);
        assert(x * -1 == -x);
        assert(d * -1 == -d);
        assert(((-x) % (-d)) * -1 == -((-x) % (-d)));
        assert(((-x) % d) * -1 == -((-x) % d));
        if x == 0 {
            assert(q == 0);
            assert(d * 0 == 0);
        }
    }
}

impl TypeChecker {
    /// The scopes as the model sees them.
    pub open spec fn env(&self) -> Env {
        env_view(self.scopes@)
    }

    #[must_use]
    pub fn new() -> (out: TypeChecker)
        ensures
            out.scopes@ == Seq::<Map<Seq<char>, TyInfo>>::empty(),
            out.cur_func_ret_ty@ == TyView::Unknown,
    {
        TypeChecker { scopes: ScopeBuilder::new(), cur_func_ret_ty: AstTy::Unknown }
    }

    pub fn visit_ty(&mut self, ty_def: &mut TypeIdent) -> (out: Result<AstTy, SemanticError>)
        ensures
            *final(self) == *old(self),
            *final(ty_def) == *old(ty_def),
            out matches Ok(ty) && ty@ == ident_ty(old(ty_def).kind),
    {
        let ty = match &ty_def.kind {
            TyIdentKind::Primitive(prim_ty) => match prim_ty {
                PrimitiveTy::Integer => AstTy::Int,
            },
            TyIdentKind::Void => AstTy::Void,
        };
        Ok(ty)
    }

    pub fn visit_expr(&mut self, expr: &mut Expr) -> (out: Result<
        Option<LiteralExpr>,
        SemanticError,
    >)
        requires
            parsed_expr(old(expr)@),
        ensures
            final(self).scopes@ == old(self).scopes@,
            final(self).cur_func_ret_ty == old(self).cur_func_ret_ty,
            outcome(check_expr(old(self).env(), old(expr)@), out, final(expr)@),
            out is Err ==> final(expr)@.ty() == old(expr)@.ty(),
        decreases *old(expr), 1nat,
    {
        match expr {
            Expr::LVal(_) => self.visit_lexpr(expr, false),
            Expr::Assign(x) => self.visit_assign_expr(x),
            Expr::Literal(x) => self.visit_literal_expr(x),
            Expr::Unary(x) => self.visit_unary_expr(x),
            Expr::Binary(x) => self.visit_binary_expr(x),
            Expr::Call(x) => self.visit_call_expr(x),
        }
    }

    /// Checks an expression that stands for a place in memory; `is_lvalue`
    /// says that the place is written to.
    #[verifier::loop_isolation(false)]
    pub fn visit_lexpr(&mut self, expr: &mut Expr, is_lvalue: bool) -> (out: Result<
        Option<LiteralExpr>,
        SemanticError,
    >)
        requires
            parsed_expr(old(expr)@),
        ensures
            final(self).scopes@ == old(self).scopes@,
            final(self).cur_func_ret_ty == old(self).cur_func_ret_ty,
            outcome(check_lexpr(old(self).env(), old(expr)@, is_lvalue), out, final(expr)@),
            place_refused(old(self).env(), old(expr)@, is_lvalue) ==> *final(expr) == *old(expr),
            out is Err ==> final(expr)@.ty() == old(expr)@.ty(),
        decreases *old(expr), 0nat,
    {
        match expr {
            Expr::LVal(lval) => {
                assert(*old(expr) == Expr::LVal(*lval));
                assert(old(expr)@ == ExprView::LVal(lval@));
                assert(lval@.subs == opt_subs_view(lval.subs));
                assert(lval.subs is Some ==> lval@.subs == Some(lval.subs->Some_0@));
                assert(lval.subs is Some ==> lval@.subs->Some_0.subs == exprs_view(lval.subs->Some_0.subs));
                assert(parsed_exprs(exprs_view(lval.subs->Some_0.subs)) || lval.subs is None);
                let ghost old_lval = lval@;
                let ghost model = check_lval(self.env(), old_lval, is_lvalue);
                let ty_info = match self.scopes.find_name_rec(lval.ident.name.as_str()) {
                    Some(info) => info.clone(),
                    None => {
                        proof {
                            lemma_env_find(self.scopes@, lval.ident.name@);
                        }
                        return Err(SemanticError::UnknownName(lval.ident.name.clone()));
                    },
                };
                proof {
                    lemma_env_find(self.scopes@, lval.ident.name@);
                }
                if ty_info.is_const && is_lvalue {
                    return Err(SemanticError::CannotModifyConstValue(lval.ident.name.clone()));
                }
                if let Some(Subs { subs, .. }) = &mut lval.subs {
                    let ghost old_subs = *subs;
                    let ghost env = self.env();
                    let mut cur_ty = ty_info.ty.clone();
                    let mut i: usize = 0;
                    proof {
                        lemma_exprs_view(old_subs);
                    }
                    while i < subs.len()
                        invariant
                            i <= subs.len(),
                            subs.len() == old_subs.len(),
                            *old(expr) matches Expr::LVal(l) && l.subs matches Some(s) && s.subs
                                == old_subs,
                            parsed_exprs(exprs_view(old_subs)),
                            self.scopes@ == old(self).scopes@,
                            self.cur_func_ret_ty == old(self).cur_func_ret_ty,
                            env == old(self).env(),
                            forall|j: int| i <= j < subs.len() ==> subs@[j] == old_subs@[j],
                            forall|j: int|
                                0 <= j < i ==> #[trigger] subs@[j]@ == exprs_checked(
                                    env,
                                    exprs_view(old_subs),
                                )[j],
                            check_subs(env, exprs_view(old_subs), 0, ty_info.ty@) == check_subs(
                                env,
                                exprs_view(old_subs),
                                i as nat,
                                cur_ty@,
                            ),
                        decreases subs.len() - i,
                    {
                        proof {
                            lemma_exprs_view(old_subs);
                            assert(exprs_view(old_subs)[i as int] == old_subs@[i as int]@);
                            assert(decreases_to!(old_subs => old_subs[i as int]));
                        }
                        match self.visit_expr(&mut subs[i]) {
                            Err(e) => {
                                return Err(e);
                            },
                            Ok(Some(lit)) => {
                                subs[i] = Expr::Literal(lit);
                            },
                            Ok(None) => {},
                        }
                        let sub_ty = subs[i].ty();
                        if !matches!(sub_ty, AstTy::Int) {
                            return Err(
                                SemanticError::TypeMismatch {
                                    expected: Expected::Int,
                                    found: sub_ty,
                                },
                            );
                        }
                        cur_ty =
                        match cur_ty {
                            AstTy::Array { elem_ty, .. } => *elem_ty,
                            AstTy::Ptr(elem_ty) => *elem_ty,
                            other => {
                                return Err(
                                    SemanticError::TypeMismatch {
                                        expected: Expected::Array,
                                        found: other,
                                    },
                                );
                            },
                        };
                        i += 1;
                    }
                    proof {
                        lemma_exprs_view(*subs);
                        assert(exprs_view(*subs) =~= exprs_checked(env, exprs_view(old_subs)));
                        assert(check_subs(env, exprs_view(old_subs), 0, ty_info.ty@) == Ok::<
                            TyView,
                            ErrorView,
                        >(cur_ty@));
                    }
                    lval.is_lvalue = is_lvalue;
                    lval.ty = cur_ty;
                    assert(lval.subs->Some_0@.subs == exprs_checked(env, old_lval.subs->Some_0.subs));
                    assert(model is Ok);
                    assert(lval@.subs == model->Ok_0.0.subs);
                    assert(lval@ == model->Ok_0.0);
                } else {
                    lval.is_lvalue = is_lvalue;
                    lval.ty = ty_info.ty.clone();
                    assert(model is Ok);
                    assert(lval@ == model->Ok_0.0);
                }
                let literal = if ty_info.is_const && !matches!(ty_info.ty, AstTy::Array { .. }) {
                    ty_info.const_val
                } else {
                    None
                };
                Ok(literal)
            },
            _ => Err(SemanticError::RequireLValue),
        }
    }

    pub fn visit_assign_expr(&mut self, expr: &mut AssignExpr) -> (out: Result<
        Option<LiteralExpr>,
        SemanticError,
    >)
        requires
            parsed_expr(ExprView::Assign(old(expr)@)),
        ensures
            final(self).scopes@ == old(self).scopes@,
            final(self).cur_func_ret_ty == old(self).cur_func_ret_ty,
            outcome(check_assign(old(self).env(), old(expr)@), out, final(expr)@),
            out is Err ==> final(expr).ty == old(expr).ty,
        decreases *old(expr), 0nat,
    {
        match self.visit_lexpr(&mut expr.lhs, true) {
            Err(e) => {
                return Err(e);
            },
            Ok(_) => {},
        }
        let rval = match self.visit_expr(&mut expr.rhs) {
            Err(e) => {
                return Err(e);
            },
            Ok(v) => v,
        };
        if let Some(rval) = &rval {
            expr.rhs = Box::new(Expr::Literal(rval.clone()));
        }
        let lhs_ty = expr.lhs.ty();
        if !matches!(lhs_ty, AstTy::Int | AstTy::Bool) {
            return Err(
                SemanticError::TypeMismatch { expected: Expected::IntOrBool, found: lhs_ty },
            );
        }
        expr.ty = lhs_ty;
        Ok(None)
    }

    pub fn visit_literal_expr(&mut self, expr: &mut LiteralExpr) -> (out: Result<
        Option<LiteralExpr>,
        SemanticError,
    >)
        requires
            old(expr).kind is Integer,
        ensures
            *final(self) == *old(self),
            final(expr)@ == check_literal(old(expr)@),
            out matches Ok(Some(lit)) && lit@ == check_literal(old(expr)@),
    {
        if !matches!(expr.ty, AstTy::Bool) {
            expr.ty = AstTy::Int;
        }
        Ok(Some(expr.clone()))
    }

    pub fn visit_unary_expr(&mut self, expr: &mut UnaryExpr) -> (out: Result<
        Option<LiteralExpr>,
        SemanticError,
    >)
        requires
            parsed_expr(ExprView::Unary(old(expr)@)),
        ensures
            final(self).scopes@ == old(self).scopes@,
            final(self).cur_func_ret_ty == old(self).cur_func_ret_ty,
            outcome(check_unary(old(self).env(), old(expr)@), out, final(expr)@),
            out is Err ==> final(expr).ty == old(expr).ty,
        decreases *old(expr), 0nat,
    {
        let sub_expr_val = match self.visit_expr(&mut expr.sub_expr) {
            Err(e) => {
                return Err(e);
            },
            Ok(v) => v,
        };
        if let Some(sub_expr_val) = &sub_expr_val {
            expr.sub_expr = Box::new(Expr::Literal(sub_expr_val.clone()));
        }
        let sub_expr_ty = expr.sub_expr.ty();

        let result_val = match expr.op {
            UnaryOp::Neg => {
                if !matches!(sub_expr_ty, AstTy::Int) {
                    return Err(
                        SemanticError::TypeMismatch { expected: Expected::Int, found: sub_expr_ty },
                    );
                }
                expr.ty = AstTy::Int;
                match sub_expr_val {
                    Some(lit) => match lit.get_int() {
                        Some(x) => Some(
                            LiteralExpr {
                                kind: LiteralKind::Integer(0i32.wrapping_sub(x)),
                                span: expr.span,
                                ty: AstTy::Int,
                            },
                        ),
                        None => None,
                    },
                    None => None,
                }
            },
            UnaryOp::Pos => {
                if !matches!(sub_expr_ty, AstTy::Int) {
                    return Err(
                        SemanticError::TypeMismatch { expected: Expected::Int, found: sub_expr_ty },
                    );
                }
                expr.ty = AstTy::Int;
                sub_expr_val
            },
            UnaryOp::Not => {
                if !matches!(sub_expr_ty, AstTy::Int | AstTy::Bool) {
                    return Err(
                        SemanticError::TypeMismatch {
                            expected: Expected::IntOrBool,
                            found: sub_expr_ty,
                        },
                    );
                }
                expr.ty = expr.sub_expr.ty();
                match sub_expr_val {
                    Some(lit) => match lit.get_int() {
                        Some(x) => Some(
                            LiteralExpr {
                                kind: LiteralKind::Integer(int_of(x == 0)),
                                span: expr.span,
                                ty: sub_expr_ty,
                            },
                        ),
                        None => None,
                    },
                    None => None,
                }
            },
        };
        Ok(result_val)
    }

    pub fn visit_binary_expr(&mut self, expr: &mut BinaryExpr) -> (out: Result<
        Option<LiteralExpr>,
        SemanticError,
    >)
        requires
            parsed_expr(ExprView::Binary(old(expr)@)),
        ensures
            final(self).scopes@ == old(self).scopes@,
            final(self).cur_func_ret_ty == old(self).cur_func_ret_ty,
            outcome(check_binary(old(self).env(), old(expr)@), out, final(expr)@),
            out is Err ==> final(expr).ty == old(expr).ty,
        decreases *old(expr), 0nat,
    {
        let lval = match self.visit_expr(&mut expr.lhs) {
            Err(e) => {
                return Err(e);
            },
            Ok(v) => v,
        };
        let rval = match self.visit_expr(&mut expr.rhs) {
            Err(e) => {
                return Err(e);
            },
            Ok(v) => v,
        };
        let op = expr.op;

        if let Some(lval) = lval {
            expr.lhs = Box::new(Expr::Literal(lval));
        }
        if let Some(rval) = rval {
            expr.rhs = Box::new(Expr::Literal(rval));
        }
        let lhs_ty = expr.lhs.ty();
        let rhs_ty = expr.rhs.ty();
        let logical = is_logical_op(op);
        let legal = match (&lhs_ty, &rhs_ty) {
            (AstTy::Int, AstTy::Int) => !logical,
            (AstTy::Bool, AstTy::Bool) => logical,
            _ => false,
        };

        if !legal {
            return Err(
                SemanticError::TypeMismatch {
                    expected: if logical {
                        Expected::Bool
                    } else {
                        Expected::Int
                    },
                    found: lhs_ty,
                },
            );
        }
        let arithmetic = matches!(
            op,
            BinaryOp::Add | BinaryOp::Sub | BinaryOp::Mul | BinaryOp::Div | BinaryOp::Mod
        );
        expr.ty = if arithmetic {
            AstTy::Int
        } else {
            AstTy::Bool
        };

        let result_val = match (&*expr.lhs, &*expr.rhs) {
            (Expr::Literal(l), Expr::Literal(r)) => match (l.get_int(), r.get_int()) {
                (Some(x), Some(y)) => match fold_binary_op(op, x, y) {
                    Some(result) => Some(
                        LiteralExpr {
                            kind: LiteralKind::Integer(result),
                            span: Span { start: l.span.start, end: r.span.end },
                            ty: if arithmetic {
                                AstTy::Int
                            } else {
                                AstTy::Bool
                            },
                        },
                    ),
                    None => None,
                },
                _ => None,
            },
            _ => None,
        };
        Ok(result_val)
    }

    #[verifier::loop_isolation(false)]
    pub fn visit_call_expr(&mut self, expr: &mut CallExpr) -> (out: Result<
        Option<LiteralExpr>,
        SemanticError,
    >)
        requires
            parsed_expr(ExprView::Call(old(expr)@)),
        ensures
            final(self).scopes@ == old(self).scopes@,
            final(self).cur_func_ret_ty == old(self).cur_func_ret_ty,
            outcome(check_call(old(self).env(), old(expr)@), out, final(expr)@),
            out is Err ==> final(expr).ty == old(expr).ty,
        decreases *old(expr), 0nat,
    {
        let ghost old_args = expr.args;
        let ghost env = self.env();
        let mut i: usize = 0;
        proof {
            lemma_exprs_view(old_args);
        }
        while i < expr.args.len()
            invariant
                i <= expr.args.len(),
                expr.args.len() == old_args.len(),
                old(expr).args == old_args,
                expr.func == old(expr).func,
                expr.span == old(expr).span,
                expr.ty == old(expr).ty,
                parsed_exprs(exprs_view(old_args)),
                self.scopes@ == old(self).scopes@,
                self.cur_func_ret_ty == old(self).cur_func_ret_ty,
                env == old(self).env(),
                forall|j: int| i <= j < expr.args.len() ==> expr.args@[j] == old_args@[j],
                forall|j: int|
                    0 <= j < i ==> #[trigger] expr.args@[j]@ == exprs_checked(
                        env,
                        exprs_view(old_args),
                    )[j],
                exprs_error(env, exprs_view(old_args), 0) == exprs_error(
                    env,
                    exprs_view(old_args),
                    i as nat,
                ),
            decreases expr.args.len() - i,
        {
            proof {
                lemma_exprs_view(old_args);
                assert(exprs_view(old_args)[i as int] == old_args@[i as int]@);
                assert(decreases_to!(old_args => old_args[i as int]));
            }
            match self.visit_expr(&mut expr.args[i]) {
                Err(e) => {
                    return Err(e);
                },
                Ok(Some(lit)) => {
                    expr.args[i] = Expr::Literal(lit);
                },
                Ok(None) => {},
            }
            i += 1;
        }
        proof {
            lemma_exprs_view(expr.args);
            assert(exprs_view(expr.args) =~= exprs_checked(env, exprs_view(old_args)));
            lemma_env_find(self.scopes@, expr.func.name@);
        }
        let callee_ty = match self.scopes.find_name_rec(expr.func.name.as_str()) {
            Some(info) => info.ty.clone(),
            None => {
                return Err(SemanticError::UnknownName(expr.func.name.clone()));
            },
        };
        match callee_ty {
            AstTy::Func { ret_ty, param_tys } => {
                proof {
                    lemma_tys_view(param_tys);
                }
                if expr.args.len() != param_tys.len() {
                    return Err(
                        SemanticError::TypeMismatch {
                            expected: Expected::ArgCount(expr.args.len()),
                            found: AstTy::Func { ret_ty, param_tys },
                        },
                    );
                }
                let mut j: usize = 0;
                while j < expr.args.len()
                    invariant
                        j <= expr.args.len(),
                        expr.args.len() == param_tys.len(),
                        expr.ty == old(expr).ty,
                        args_mismatch(exprs_view(expr.args), tys_view(param_tys), 0)
                            == args_mismatch(exprs_view(expr.args), tys_view(param_tys), j as nat),
                    decreases expr.args.len() - j,
                {
                    proof {
                        lemma_exprs_view(expr.args);
                        lemma_tys_view(param_tys);
                    }
                    let arg_ty = expr.args[j].ty();
                    match assert_type_eq(&arg_ty, &param_tys[j]) {
                        Err(e) => {
                            return Err(e);
                        },
                        Ok(_) => {},
                    }
                    j += 1;
                }
                expr.ty = *ret_ty;
                Ok(None)
            },
            _ => Err(SemanticError::ExpectedFunction(expr.func.name.clone())),
        }
    }

    /// The literal of an element that was not written out.
    #[verifier::loop_isolation(false)]
    pub fn zero_literal(ty: &AstTy, span: Span) -> (out: LiteralExpr)
        ensures
            out@ == zero_literal(ty@, span),
        decreases ty,
    {
        match ty {
            AstTy::Array { siz, elem_ty } => {
                let mut vals: Vec<LiteralExpr> = Vec::new();
                let mut i: usize = 0;
                while i < *siz
                    invariant
                        i <= *siz,
                        vals.len() == i,
                        forall|j: int| 0 <= j < i ==> #[trigger] vals@[j]@ == zero_literal(
                            elem_ty@,
                            span,
                        ),
                    decreases *siz - i,
                {
                    proof {
                        assert(decreases_to!(ty => elem_ty));
                    }
                    vals.push(Self::zero_literal(elem_ty, span));
                    i += 1;
                }
                proof {
                    lemma_literals_view(vals);
                    assert(literals_view(vals) =~= Seq::new(
                        *siz as nat,
                        |i: int| zero_literal(elem_ty@, span),
                    ));
                }
                LiteralExpr { kind: LiteralKind::Array(*siz, vals), span, ty: ty.clone() }
            },
            _ => LiteralExpr { kind: LiteralKind::Integer(0), span, ty: AstTy::Int },
        }
    }

    /// A literal made to fit the type it initializes; the elements of an
    /// array that were not written out are added as zeros.
    #[verifier::loop_isolation(false)]
    pub fn fix_array_literal(literal: &mut LiteralExpr, expected_ty: &AstTy) -> (out: Result<
        (),
        SemanticError,
    >)
        ensures
            match fix_literal(old(literal)@, expected_ty@) {
                Ok(fixed) => out is Ok && final(literal)@ == fixed,
                Err(err) => out matches Err(e) && e@ == err,
            },
            out is Err ==> final(literal).ty == old(literal).ty,
        decreases *old(literal),
    {
        let span = literal.span;
        match (&mut literal.kind, expected_ty) {
            (LiteralKind::Integer(_), AstTy::Int) => Ok(()),
            (LiteralKind::Array(literal_siz, literal_vals), AstTy::Array { siz: ty_siz, elem_ty }) => {
                if *literal_siz > *ty_siz {
                    return Err(SemanticError::TooMuchElement);
                }
                let ghost old_vals = *literal_vals;
                let ghost elem = elem_ty@;
                let mut i: usize = 0;
                proof {
                    lemma_literals_view(old_vals);
                }
                while i < literal_vals.len()
                    invariant
                        i <= literal_vals.len(),
                        literal_vals.len() == old_vals.len(),
                        old(literal).kind matches LiteralKind::Array(_, vs) && vs == old_vals,
                        elem == elem_ty@,
                        forall|j: int|
                            i <= j < literal_vals.len() ==> literal_vals@[j] == old_vals@[j],
                        forall|j: int|
                            0 <= j < i ==> #[trigger] literal_vals@[j]@ == fix_literals(
                                literals_view(old_vals),
                                elem,
                            )[j],
                        fix_literals_error(literals_view(old_vals), elem, 0) == fix_literals_error(
                            literals_view(old_vals),
                            elem,
                            i as nat,
                        ),
                    decreases literal_vals.len() - i,
                {
                    proof {
                        lemma_literals_view(old_vals);
                        assert(literals_view(old_vals)[i as int] == old_vals@[i as int]@);
                        assert(decreases_to!(old_vals => old_vals[i as int]));
                    }
                    match Self::fix_array_literal(&mut literal_vals[i], elem_ty) {
                        Err(e) => {
                            return Err(e);
                        },
                        Ok(_) => {},
                    }
                    i += 1;
                }
                proof {
                    lemma_literals_view(*literal_vals);
                    assert(literals_view(*literal_vals) =~= fix_literals(
                        literals_view(old_vals),
                        elem,
                    ));
                }
                let ghost fixed = literals_view(*literal_vals);
                let ghost zero = zero_literal(elem, span);
                while literal_vals.len() < *ty_siz
                    invariant
                        fixed.len() <= literal_vals.len(),
                        literal_vals.len() <= *ty_siz || literal_vals.len() == fixed.len(),
                        forall|j: int| 0 <= j < fixed.len() ==> #[trigger] literal_vals@[j]@ == fixed[j],
                        forall|j: int|
                            fixed.len() <= j < literal_vals.len() ==> #[trigger] literal_vals@[j]@
                                == zero,
                    decreases *ty_siz - literal_vals.len(),
                {
                    literal_vals.push(Self::zero_literal(elem_ty, span));
                }
                proof {
                    lemma_literals_view(*literal_vals);
                    assert(literals_view(*literal_vals) =~= padded(fixed, *ty_siz, zero));
                }
                *literal_siz = *ty_siz;
                literal.ty = expected_ty.clone();
                Ok(())
            },
            _ => assert_type_eq(expected_ty, &AstTy::Unknown),
        }
    }

    /// A checked initializer made to fit the type it initializes.
    #[verifier::loop_isolation(false)]
    pub fn fix_array_init_val(init_val: &mut InitVal, expected_ty: &AstTy) -> (out: Result<
        (),
        SemanticError,
    >)
        ensures
            match fix_init(old(init_val)@, expected_ty@) {
                Ok(fixed) => out is Ok && final(init_val)@ == fixed,
                Err(err) => out matches Err(e) && e@ == err,
            },
            out is Err ==> final(init_val).ty == old(init_val).ty,
        decreases *old(init_val),
    {
        match (&mut init_val.kind, expected_ty) {
            (InitValKind::Expr(expr), _) => {
                let expr_ty = expr.ty();
                assert_type_eq(expected_ty, &expr_ty)
            },
            (InitValKind::ArrayVal(elem_vals), AstTy::Array { siz: ty_siz, elem_ty }) => {
                if elem_vals.len() > *ty_siz {
                    return Err(SemanticError::TooMuchElement);
                }
                let ghost old_vals = *elem_vals;
                let ghost elem = elem_ty@;
                let mut i: usize = 0;
                proof {
                    lemma_init_vals_view(old_vals);
                }
                while i < elem_vals.len()
                    invariant
                        i <= elem_vals.len(),
                        elem_vals.len() == old_vals.len(),
                        old(init_val).kind matches InitValKind::ArrayVal(vs) && vs == old_vals,
                        elem == elem_ty@,
                        forall|j: int| i <= j < elem_vals.len() ==> elem_vals@[j] == old_vals@[j],
                        forall|j: int|
                            0 <= j < i ==> #[trigger] elem_vals@[j]@ == fix_inits(
                                init_vals_view(old_vals),
                                elem,
                            )[j],
                        fix_inits_error(init_vals_view(old_vals), elem, 0) == fix_inits_error(
                            init_vals_view(old_vals),
                            elem,
                            i as nat,
                        ),
                    decreases elem_vals.len() - i,
                {
                    proof {
                        lemma_init_vals_view(old_vals);
                        assert(init_vals_view(old_vals)[i as int] == old_vals@[i as int]@);
                        assert(decreases_to!(old_vals => old_vals[i as int]));
                    }
                    match Self::fix_array_init_val(&mut elem_vals[i], elem_ty) {
                        Err(e) => {
                            return Err(e);
                        },
                        Ok(_) => {},
                    }
                    i += 1;
                }
                proof {
                    lemma_init_vals_view(*elem_vals);
                    assert(init_vals_view(*elem_vals) =~= fix_inits(init_vals_view(old_vals), elem));
                }
                init_val.ty = expected_ty.clone();
                Ok(())
            },
            _ => assert_type_eq(expected_ty, &AstTy::Unknown),
        }
    }

    /// Folds the dimensions of a declarator and builds the type that they
    /// make of `base_ty`.
    #[verifier::loop_isolation(false)]
    pub fn build_ast_ty(&mut self, base_ty: &AstTy, subs: &mut Option<Subs>) -> (out: Result<
        AstTy,
        SemanticError,
    >)
        requires
            parsed_subs(opt_subs_view(*old(subs))),
        ensures
            final(self).scopes@ == old(self).scopes@,
            final(self).cur_func_ret_ty == old(self).cur_func_ret_ty,
            match check_declarator(old(self).env(), base_ty@, opt_subs_view(*old(subs))) {
                Ok((checked, ty)) => out matches Ok(t) && t@ == ty && opt_subs_view(*final(subs))
                    == checked,
                Err(err) => out matches Err(e) && e@ == err,
            },
    {
        let ghost env = self.env();
        let mut ty = base_ty.clone();
        if let Some(s) = subs {
            let ghost old_subs = s.subs;
            let ghost old_dims = exprs_view(old_subs);
            let mut i: usize = 0;
            proof {
                lemma_exprs_view(old_subs);
            }
            while i < s.subs.len()
                invariant
                    i <= s.subs.len(),
                    s.subs.len() == old_subs.len(),
                    s.span == old(subs)->Some_0.span,
                    self.scopes@ == old(self).scopes@,
                    self.cur_func_ret_ty == old(self).cur_func_ret_ty,
                    forall|j: int| i <= j < s.subs.len() ==> s.subs@[j] == old_subs@[j],
                    forall|j: int|
                        0 <= j < i ==> #[trigger] s.subs@[j]@ == dims_checked(env, old_dims)[j],
                    dims_error(env, old_dims, 0) == dims_error(env, old_dims, i as nat),
                decreases s.subs.len() - i,
            {
                proof {
                    assert(old_dims[i as int] == old_subs@[i as int]@);
                }
                let literal = match self.visit_expr(&mut s.subs[i]) {
                    Err(e) => {
                        return Err(e);
                    },
                    Ok(None) => {
                        return Err(SemanticError::RequireConstant);
                    },
                    Ok(Some(literal)) => literal,
                };
                match literal.get_int() {
                    None => {
                        return Err(SemanticError::RequireConstant);
                    },
                    Some(x) => {
                        if x <= 0 {
                            return Err(SemanticError::IllegalArrayDim);
                        }
                    },
                }
                s.subs[i] = Expr::Literal(literal);
                i += 1;
            }
            proof {
                lemma_exprs_view(s.subs);
                assert(exprs_view(s.subs) =~= dims_checked(env, old_dims));
            }
            let ghost dims = exprs_view(s.subs);
            let mut k: usize = s.subs.len();
            while k > 0
                invariant
                    k <= s.subs.len(),
                    ty@ == array_ty(base_ty@, dims, k as nat),
                decreases k,
            {
                k -= 1;
                let siz = match &s.subs[k] {
                    Expr::Literal(l) => match l.get_int() {
                        Some(x) => x as usize,
                        None => 0,
                    },
                    _ => 0,
                };
                proof {
                    assert(dims[k as int] == s.subs@[k as int]@);
                }
                ty = AstTy::Array { siz, elem_ty: Box::new(ty) };
            }
        }
        Ok(ty)
    }

    /// Checks the type of a parameter: one declared with dimensions is a
    /// pointer to what the dimensions make of its base type.
    pub fn visit_func_param(&mut self, param: &mut FuncParam) -> (out: Result<(), SemanticError>)
        requires
            parsed_subs(old(param)@.subs),
        ensures
            final(self).scopes@ == old(self).scopes@,
            final(self).cur_func_ret_ty == old(self).cur_func_ret_ty,
            match check_param(old(self).env(), old(param)@) {
                Ok(checked) => out is Ok && final(param)@ == checked,
                Err(err) => out matches Err(e) && e@ == err,
            },
            out is Err ==> final(param).ty == old(param).ty,
    {
        let base_ty = match self.visit_ty(&mut param.ty_ident) {
            Ok(ty) => ty,
            Err(e) => {
                return Err(e);
            },
        };
        let declared = param.subs.is_some();
        let mut ty = match self.build_ast_ty(&base_ty, &mut param.subs) {
            Ok(ty) => ty,
            Err(e) => {
                return Err(e);
            },
        };
        if declared {
            ty = AstTy::Ptr(Box::new(ty));
        }
        param.ty = ty;
        Ok(())
    }

    /// Checks the initializer of a global, which must be constant, and
    /// hands back the literal that it folds to.
    #[verifier::loop_isolation(false)]
    pub fn visit_const_init_val(&mut self, init_val: &mut InitVal) -> (out: Result<
        LiteralExpr,
        SemanticError,
    >)
        requires
            parsed_init(old(init_val)@),
        ensures
            final(self).scopes@ == old(self).scopes@,
            final(self).cur_func_ret_ty == old(self).cur_func_ret_ty,
            match check_const_init(old(self).env(), old(init_val)@) {
                Ok((checked, lit)) => out matches Ok(l) && l@ == lit && final(init_val)@ == checked,
                Err(err) => out matches Err(e) && e@ == err,
            },
            out is Err ==> final(init_val).ty == old(init_val).ty,
        decreases *old(init_val),
    {
        let ghost env = self.env();
        match &mut init_val.kind {
            InitValKind::Expr(x) => {
                let literal = match self.visit_expr(x) {
                    Err(e) => {
                        return Err(e);
                    },
                    Ok(Some(literal)) => literal,
                    Ok(None) => {
                        return Err(SemanticError::RequireConstant);
                    },
                };
                init_val.ty = x.ty();
                Ok(literal)
            },
            InitValKind::ArrayVal(vals) => {
                let ghost old_vals = *vals;
                let ghost old_views = init_vals_view(old_vals);
                let mut results: Vec<Result<LiteralExpr, SemanticError>> = Vec::new();
                let mut failed = false;
                let mut i: usize = 0;
                proof {
                    lemma_init_vals_view(old_vals);
                }
                while i < vals.len() && !failed
                    invariant
                        i <= vals.len(),
                        vals.len() == old_vals.len(),
                        results.len() == i,
                        self.scopes@ == old(self).scopes@,
                        self.cur_func_ret_ty == old(self).cur_func_ret_ty,
                        forall|j: int| i <= j < vals.len() ==> vals@[j] == old_vals@[j],
                        forall|j: int|
                            0 <= j < i && !(failed && j == i - 1) ==> #[trigger] vals@[j]@
                                == const_inits_checked(env, old_views)[j],
                        forall|j: int|
                            0 <= j < i && !(failed && j == i - 1) ==> ((#[trigger] results@[j])
                                matches Ok(l) && l@ == const_inits_literals(env, old_views)[j]),
                        failed ==> i > 0 && (results@[i - 1] matches Err(e) && const_inits_error(
                            env,
                            old_views,
                            0,
                        ) == Some(e@)),
                        !failed ==> const_inits_error(env, old_views, 0) == const_inits_error(
                            env,
                            old_views,
                            i as nat,
                        ),
                    decreases vals.len() - i,
                {
                    proof {
                        assert(old_views[i as int] == old_vals@[i as int]@);
                        assert(decreases_to!(old_vals => old_vals[i as int]));
                    }
                    let result = self.visit_const_init_val(&mut vals[i]);
                    failed = result.is_err();
                    results.push(result);
                    i += 1;
                }
                proof {
                    assert(failed ==> first_err_at(results@, i - 1));
                    assert(!failed ==> all_ok(results@));
                }
                let ghost gathered = results@;
                let literals = match try_collect(results) {
                    Err(e) => {
                        return Err(e);
                    },
                    Ok(literals) => literals,
                };
                proof {
                    lemma_init_vals_view(*vals);
                    lemma_literals_view(literals);
                    assert(!failed);
                    assert(init_vals_view(*vals) =~= const_inits_checked(env, old_views));
                    assert forall|j: int| 0 <= j < literals@.len() implies literals_view(literals)[j]
                        == const_inits_literals(env, old_views)[j] by {
                        assert(literals@[j] == gathered[j]->Ok_0);
                        assert(gathered[j] is Ok);
                    }
                    assert(literals_view(literals) =~= const_inits_literals(env, old_views));
                }
                Ok(
                    LiteralExpr {
                        kind: LiteralKind::Array(literals.len(), literals),
                        span: init_val.span,
                        ty: AstTy::Unknown,
                    },
                )
            },
            InitValKind::Const(literal) => Ok(literal.clone()),
        }
    }

    /// Checks the initializer of a local; each expression in it that folds
    /// is replaced by its value.
    #[verifier::loop_isolation(false)]
    pub fn visit_init_val(&mut self, init_val: &mut InitVal) -> (out: Result<(), SemanticError>)
        requires
            parsed_init(old(init_val)@),
        ensures
            final(self).scopes@ == old(self).scopes@,
            final(self).cur_func_ret_ty == old(self).cur_func_ret_ty,
            match check_init(old(self).env(), old(init_val)@) {
                Ok(checked) => out is Ok && final(init_val)@ == checked,
                Err(err) => out matches Err(e) && e@ == err,
            },
            out is Err ==> final(init_val).ty == old(init_val).ty,
        decreases *old(init_val),
    {
        let ghost env = self.env();
        match &mut init_val.kind {
            InitValKind::Expr(expr) => {
                let literal = match self.visit_expr(expr) {
                    Err(e) => {
                        return Err(e);
                    },
                    Ok(literal) => literal,
                };
                init_val.ty = expr.ty();
                if let Some(literal) = literal {
                    init_val.kind = InitValKind::Expr(Expr::Literal(literal));
                }
            },
            InitValKind::ArrayVal(vals) => {
                let ghost old_vals = *vals;
                let ghost old_views = init_vals_view(old_vals);
                let mut i: usize = 0;
                proof {
                    lemma_init_vals_view(old_vals);
                }
                while i < vals.len()
                    invariant
                        i <= vals.len(),
                        vals.len() == old_vals.len(),
                        self.scopes@ == old(self).scopes@,
                        self.cur_func_ret_ty == old(self).cur_func_ret_ty,
                        forall|j: int| i <= j < vals.len() ==> vals@[j] == old_vals@[j],
                        forall|j: int|
                            0 <= j < i ==> #[trigger] vals@[j]@ == inits_checked(env, old_views)[j],
                        inits_error(env, old_views, 0) == inits_error(env, old_views, i as nat),
                    decreases vals.len() - i,
                {
                    proof {
                        assert(old_views[i as int] == old_vals@[i as int]@);
                        assert(decreases_to!(old_vals => old_vals[i as int]));
                    }
                    match self.visit_init_val(&mut vals[i]) {
                        Err(e) => {
                            return Err(e);
                        },
                        Ok(_) => {},
                    }
                    i += 1;
                }
                proof {
                    lemma_init_vals_view(*vals);
                    assert(init_vals_view(*vals) =~= inits_checked(env, old_views));
                }
            },
            InitValKind::Const(_) => {},
        }
        Ok(())
    }
}

} // verus!
