//! Checking a folded expression again changes nothing.

use vstd::prelude::*;

use crate::ast_view::{ExprView, LiteralExprView, TyView};
use crate::err::ErrorView;
use crate::scope::{lemma_find_witness, scopes_find};
use crate::type_checker::model::{
    check_binary, check_call, check_expr, check_lexpr, check_lval, check_subs, check_unary,
    const_value, exprs_checked, exprs_error, parsed_expr, parsed_exprs, replaced, Env,
};
use crate::type_checker::typed::lemma_no_error_at;

verus! {

/// The value of each constant in the scopes is one integer of type `Int`.
pub open spec fn env_consts_int(env: Env) -> bool {
    forall|s: int, name: Seq<char>|
        0 <= s < env.len() && #[trigger] env[s].contains_key(name) ==> match const_value(
            env[s][name],
        ) {
            Some(lit) => lit.ty is Int && lit.kind is Integer,
            None => true,
        }
}

/// The value that an expression folds to is an integer or a boolean.
pub proof fn lemma_value_scalar(env: Env, e: ExprView)
    requires
        env_consts_int(env),
    ensures
        check_expr(env, e) matches Ok((_, Some(lit))) ==> lit.ty is Int || lit.ty is Bool,
{
    match e {
        ExprView::LVal(l) => {
            if scopes_find(env, l.ident.name) is Some {
                let s = lemma_find_witness(env, l.ident.name);
                assert(env[s].contains_key(l.ident.name));
            }
            assert(check_expr(env, e) == check_lexpr(env, e, false));
            assert(check_lval(env, l, false) matches Ok((_, value)) ==> value == const_value(
                scopes_find(env, l.ident.name)->Some_0,
            ));
        },
        ExprView::Assign(a) => {},
        ExprView::Literal(l) => {},
        ExprView::Unary(u) => {
            assert(check_unary(env, u) matches Ok((_, Some(lit))) ==> lit.ty is Int || lit.ty is Bool);
        },
        ExprView::Binary(b) => {
            assert(check_binary(env, b) matches Ok((_, Some(lit))) ==> lit.ty is Int || lit.ty is Bool);
        },
        ExprView::Call(c) => {},
    }
}

/// Checking again an expression that was checked changes nothing: the
/// expression stays as it is, node for node, and folds to the same value.
pub proof fn lemma_check_expr_idempotent(env: Env, e: ExprView)
    requires
        env_consts_int(env),
    ensures
        check_expr(env, e) matches Ok((checked, value)) ==> check_expr(env, checked) == check_expr(
            env,
            e,
        ),
    decreases e, 1nat,
{
    match e {
        ExprView::LVal(_) => lemma_check_lexpr_idempotent(env, e, false),
        ExprView::Assign(a) => {
            lemma_check_lexpr_idempotent(env, *a.lhs, true);
            lemma_check_child_idempotent(env, *a.rhs);
        },
        ExprView::Literal(l) => {},
        ExprView::Unary(u) => {
            lemma_check_child_idempotent(env, *u.sub_expr);
        },
        ExprView::Binary(b) => {
            lemma_check_child_idempotent(env, *b.lhs);
            lemma_check_child_idempotent(env, *b.rhs);
        },
        ExprView::Call(c) => {
            match check_call(env, c) {
                Ok((checked, _)) => {
                    lemma_check_exprs_idempotent(env, c.args);
                    let args = exprs_checked(env, c.args);
                    assert forall|i: int| 0 <= i < args.len() implies #[trigger] check_expr(
                        env,
                        args[i],
                    ) is Ok by {}
                    lemma_all_checked_from(env, args, 0);
                },
                Err(_) => {},
            }
        },
    }
}

/// The node that stands for a checked operand, a literal or the checked
/// operand itself, checks to itself and to the value of the operand.
pub proof fn lemma_check_child_idempotent(env: Env, e: ExprView)
    requires
        env_consts_int(env),
    ensures
        check_expr(env, e) matches Ok((checked, value)) ==> check_expr(
            env,
            replaced(checked, value),
        ) == Ok::<(ExprView, Option<LiteralExprView>), ErrorView>(
            (replaced(checked, value), value),
        ),
    decreases e, 2nat,
{
    match check_expr(env, e) {
        Ok((checked, value)) => {
            lemma_value_scalar(env, e);
            if value is None {
                lemma_check_expr_idempotent(env, e);
            }
        },
        Err(_) => {},
    }
}

pub proof fn lemma_check_lexpr_idempotent(env: Env, e: ExprView, is_lvalue: bool)
    requires
        env_consts_int(env),
    ensures
        check_lexpr(env, e, is_lvalue) matches Ok((checked, value)) ==> check_lexpr(
            env,
            checked,
            is_lvalue,
        ) == check_lexpr(env, e, is_lvalue),
    decreases e, 0nat,
{
    match e {
        ExprView::LVal(l) => {
            match (scopes_find(env, l.ident.name), l.subs) {
                (Some(info), Some(subs)) => {
                    if check_subs(env, subs.subs, 0, info.ty) is Ok {
                        lemma_checked_subs_ok(env, subs.subs, 0, info.ty);
                        lemma_check_exprs_idempotent(env, subs.subs);
                        lemma_check_subs_again(env, subs.subs, 0, info.ty);
                    }
                },
                _ => {},
            }
        },
        _ => {},
    }
}

/// Where the subscripts pass, none of them fails.
pub proof fn lemma_checked_subs_ok(env: Env, subs: Seq<ExprView>, from: nat, cur_ty: TyView)
    ensures
        check_subs(env, subs, from, cur_ty) is Ok ==> exprs_error(env, subs, from) is None,
    decreases subs.len() - from,
{
    if from < subs.len() {
        match check_expr(env, subs[from as int]) {
            Ok((checked, value)) => {
                if replaced(checked, value).ty() is Int {
                    match cur_ty {
                        TyView::Array { elem_ty, .. } => lemma_checked_subs_ok(
                            env,
                            subs,
                            from + 1,
                            *elem_ty,
                        ),
                        TyView::Ptr(elem_ty) => lemma_checked_subs_ok(env, subs, from + 1, *elem_ty),
                        _ => {},
                    }
                }
            },
            Err(_) => {},
        }
    }
}

/// Each of the checked expressions checks to itself, and folds to the
/// value that it was replaced by, if it was.
pub proof fn lemma_check_exprs_idempotent(env: Env, exprs: Seq<ExprView>)
    requires
        env_consts_int(env),
        exprs_error(env, exprs, 0) is None,
    ensures
        forall|i: int|
            0 <= i < exprs.len() ==> #[trigger] check_expr(env, exprs_checked(env, exprs)[i])
                == Ok::<(ExprView, Option<LiteralExprView>), ErrorView>(
                (exprs_checked(env, exprs)[i], check_expr(env, exprs[i])->Ok_0.1),
            ),
        exprs_checked(env, exprs_checked(env, exprs)) == exprs_checked(env, exprs),
    decreases exprs, 0nat,
{
    let checked = exprs_checked(env, exprs);
    assert forall|i: int| 0 <= i < exprs.len() implies #[trigger] check_expr(env, checked[i])
        == Ok::<(ExprView, Option<LiteralExprView>), ErrorView>(
        (checked[i], check_expr(env, exprs[i])->Ok_0.1),
    ) by {
        lemma_no_error_at(env, exprs, 0, i);
        lemma_check_child_idempotent(env, exprs[i]);
    }
    assert forall|i: int| 0 <= i < exprs.len() implies exprs_checked(env, checked)[i] == checked[i] by {
        let value = check_expr(env, exprs[i])->Ok_0.1;
        assert(check_expr(env, checked[i]) == Ok::<(ExprView, Option<LiteralExprView>), ErrorView>(
            (checked[i], value),
        ));
        lemma_no_error_at(env, exprs, 0, i);
        assert(replaced(checked[i], value) == checked[i]);
    }
    assert(exprs_checked(env, checked) =~= checked);
}

/// Expressions that each check without error have no first error.
pub proof fn lemma_all_checked_from(env: Env, exprs: Seq<ExprView>, from: nat)
    requires
        forall|i: int| from <= i < exprs.len() ==> #[trigger] check_expr(env, exprs[i]) is Ok,
    ensures
        exprs_error(env, exprs, from) is None,
    decreases exprs.len() - from,
{
    if from < exprs.len() {
        assert(check_expr(env, exprs[from as int]) is Ok);
        lemma_all_checked_from(env, exprs, from + 1);
    }
}

/// Subscripts that each check to themselves leave the same type when they
/// are checked again.
pub proof fn lemma_check_subs_again(env: Env, subs: Seq<ExprView>, from: nat, cur_ty: TyView)
    requires
        exprs_error(env, subs, 0) is None,
        forall|i: int|
            0 <= i < subs.len() ==> #[trigger] check_expr(env, exprs_checked(env, subs)[i])
                == Ok::<(ExprView, Option<LiteralExprView>), ErrorView>(
                (exprs_checked(env, subs)[i], check_expr(env, subs[i])->Ok_0.1),
            ),
    ensures
        check_subs(env, exprs_checked(env, subs), from, cur_ty) == check_subs(
            env,
            subs,
            from,
            cur_ty,
        ),
    decreases subs.len() - from,
{
    let checked = exprs_checked(env, subs);
    if from < subs.len() {
        lemma_no_error_at(env, subs, 0, from as int);
        let (c, value) = check_expr(env, subs[from as int])->Ok_0;
        assert(checked[from as int] == replaced(c, value));
        assert(check_expr(env, checked[from as int]) == Ok::<
            (ExprView, Option<LiteralExprView>),
            ErrorView,
        >((checked[from as int], value)));
        assert(replaced(checked[from as int], value) == checked[from as int]);
        if replaced(c, value).ty() is Int {
            match cur_ty {
                TyView::Array { elem_ty, .. } => lemma_check_subs_again(env, subs, from + 1, *elem_ty),
                TyView::Ptr(elem_ty) => lemma_check_subs_again(env, subs, from + 1, *elem_ty),
                _ => {},
            }
        }
    }
}

/// A checked expression can be checked again: each literal in it is an
/// integer, and so is the value that it folds to.
pub proof fn lemma_checked_expr_parsed(env: Env, e: ExprView)
    requires
        env_consts_int(env),
        parsed_expr(e),
    ensures
        check_expr(env, e) matches Ok((checked, value)) ==> parsed_expr(checked) && parsed_expr(
            replaced(checked, value),
        ),
    decreases e, 1nat,
{
    match e {
        ExprView::LVal(_) => lemma_checked_lexpr_parsed(env, e, false),
        ExprView::Assign(a) => {
            lemma_checked_lexpr_parsed(env, *a.lhs, true);
            lemma_checked_expr_parsed(env, *a.rhs);
        },
        ExprView::Literal(l) => {},
        ExprView::Unary(u) => {
            lemma_checked_expr_parsed(env, *u.sub_expr);
        },
        ExprView::Binary(b) => {
            lemma_checked_expr_parsed(env, *b.lhs);
            lemma_checked_expr_parsed(env, *b.rhs);
        },
        ExprView::Call(c) => {
            lemma_checked_exprs_parsed(env, c.args);
        },
    }
}

pub proof fn lemma_checked_lexpr_parsed(env: Env, e: ExprView, is_lvalue: bool)
    requires
        env_consts_int(env),
        parsed_expr(e),
    ensures
        check_lexpr(env, e, is_lvalue) matches Ok((checked, value)) ==> parsed_expr(checked)
            && parsed_expr(replaced(checked, value)),
    decreases e, 0nat,
{
    match e {
        ExprView::LVal(l) => {
            if scopes_find(env, l.ident.name) is Some {
                let s = lemma_find_witness(env, l.ident.name);
                assert(env[s].contains_key(l.ident.name));
            }
            match l.subs {
                Some(subs) => lemma_checked_exprs_parsed(env, subs.subs),
                None => {},
            }
        },
        _ => {},
    }
}

/// Each of the checked expressions can be checked again.
pub proof fn lemma_checked_exprs_parsed(env: Env, exprs: Seq<ExprView>)
    requires
        env_consts_int(env),
        parsed_exprs(exprs),
    ensures
        parsed_exprs(exprs_checked(env, exprs)),
    decreases exprs, 0nat,
{
    let checked = exprs_checked(env, exprs);
    assert forall|i: int| 0 <= i < checked.len() implies parsed_expr(#[trigger] checked[i]) by {
        assert(parsed_expr(exprs[i]));
        lemma_checked_expr_parsed(env, exprs[i]);
    }
}

} // verus!
