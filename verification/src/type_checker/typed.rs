//! What holds of every expression that the type checker has passed: each
//! node has a type, and the type of an operator is that of its table.

use vstd::prelude::*;

use crate::ast::{BinaryOp, UnaryOp};
use crate::ast_view::{
    AssignExprView, BinaryExprView, CallExprView, DeclView, ExprView, LiteralExprView,
    SubDeclView, TyView, UnaryExprView,
};
use crate::err::ErrorView;
use crate::scope::{
    lemma_find_witness, lemma_no_redeclaration, scopes_can_insert, scopes_find, scopes_insert,
};
use crate::type_checker::model::{
    binary_result_ty, check_assign, check_binary, check_call, check_decl, check_expr,
    check_global_sub_decl, check_lexpr, check_local_sub_decl, check_sub_decl, check_sub_decls,
    check_subs, check_unary, const_value, decl_env, declare, exprs_checked, exprs_error, ident_ty,
    replaced, sub_decls_env, Env, TyInfoView,
};

verus! {

/// The type of a unary operator on an operand of type `operand`: `-` and
/// `+` yield an integer, `!` yields the type of its operand.
pub open spec fn unary_result_ty(op: UnaryOp, operand: TyView) -> TyView {
    match op {
        UnaryOp::Neg | UnaryOp::Pos => TyView::Int,
        UnaryOp::Not => operand,
    }
}

/// Each node of the expression has a type with no unknown part, and each
/// operator has the type of its table.
pub open spec fn typed_expr(e: ExprView) -> bool
    decreases e,
{
    match e {
        ExprView::LVal(l) => {
            &&& l.ty.known()
            &&& match l.subs {
                Some(s) => typed_exprs(s.subs),
                None => true,
            }
        },
        ExprView::Assign(a) => a.ty.known() && typed_expr(*a.lhs) && typed_expr(*a.rhs),
        ExprView::Literal(l) => l.ty.known(),
        ExprView::Unary(u) => {
            &&& typed_expr(*u.sub_expr)
            &&& u.ty == unary_result_ty(u.op, u.sub_expr.ty())
            &&& (u.ty is Int || u.ty is Bool)
        },
        ExprView::Binary(b) => {
            &&& typed_expr(*b.lhs)
            &&& typed_expr(*b.rhs)
            &&& b.ty == binary_result_ty(b.op)
        },
        ExprView::Call(c) => c.ty.known() && typed_exprs(c.args),
    }
}

pub open spec fn typed_exprs(exprs: Seq<ExprView>) -> bool
    decreases exprs,
{
    forall|i: int| 0 <= i < exprs.len() ==> typed_expr(#[trigger] exprs[i])
}

/// What is known of the name has a type with no unknown part, and so has
/// its value.
pub open spec fn info_known(info: TyInfoView) -> bool {
    &&& info.ty.known()
    &&& match info.const_val {
        Some(lit) => lit.ty.known(),
        None => true,
    }
}

/// Each name in the scopes has a type with no unknown part.
pub open spec fn env_known(env: Env) -> bool {
    forall|s: int, name: Seq<char>|
        0 <= s < env.len() && #[trigger] env[s].contains_key(name) ==> info_known(env[s][name])
}

pub proof fn lemma_found_is_known(env: Env, name: Seq<char>)
    requires
        env_known(env),
    ensures
        scopes_find(env, name) matches Some(info) ==> info_known(info),
{
    if scopes_find(env, name) is Some {
        let s = lemma_find_witness(env, name);
        assert(env[s].contains_key(name));
    }
}

pub open spec fn value_known(value: Option<LiteralExprView>) -> bool {
    match value {
        Some(lit) => lit.ty.known(),
        None => true,
    }
}

/// Every expression that the checker has passed is typed, and so is the
/// value that it folds to.
pub proof fn lemma_checked_expr_typed(env: Env, e: ExprView)
    requires
        env_known(env),
    ensures
        check_expr(env, e) matches Ok((checked, value)) ==> typed_expr(checked) && value_known(
            value,
        ),
    decreases e, 1nat,
{
    match e {
        ExprView::LVal(_) => lemma_checked_lexpr_typed(env, e, false),
        ExprView::Assign(a) => lemma_checked_assign_typed(env, a),
        ExprView::Literal(l) => {},
        ExprView::Unary(u) => lemma_checked_unary_typed(env, u),
        ExprView::Binary(b) => lemma_checked_binary_typed(env, b),
        ExprView::Call(c) => lemma_checked_call_typed(env, c),
    }
}

pub proof fn lemma_checked_lexpr_typed(env: Env, e: ExprView, is_lvalue: bool)
    requires
        env_known(env),
    ensures
        check_lexpr(env, e, is_lvalue) matches Ok((checked, value)) ==> typed_expr(checked)
            && value_known(value),
    decreases e, 0nat,
{
    match e {
        ExprView::LVal(l) => {
            lemma_found_is_known(env, l.ident.name);
            match scopes_find(env, l.ident.name) {
                Some(info) => {
                    match l.subs {
                        Some(subs) => {
                            lemma_checked_subs_known(env, subs.subs, 0, info.ty);
                            if check_subs(env, subs.subs, 0, info.ty) is Ok {
                                lemma_checked_exprs_typed(env, subs.subs);
                            }
                        },
                        None => {},
                    }
                },
                None => {},
            }
        },
        _ => {},
    }
}

/// Each of the expressions, after checking, is typed.
pub proof fn lemma_checked_exprs_typed(env: Env, exprs: Seq<ExprView>)
    requires
        env_known(env),
        exprs_error(env, exprs, 0) is None,
    ensures
        typed_exprs(exprs_checked(env, exprs)),
    decreases exprs, 0nat,
{
    assert forall|i: int| 0 <= i < exprs.len() implies typed_expr(
        #[trigger] exprs_checked(env, exprs)[i],
    ) by {
        lemma_no_error_at(env, exprs, 0, i);
        lemma_checked_expr_typed(env, exprs[i]);
        let (checked, value) = check_expr(env, exprs[i])->Ok_0;
        lemma_replaced_typed(checked, value);
    }
}

/// Where no expression fails from index `from` on, the one at index `i`
/// does not.
pub proof fn lemma_no_error_at(env: Env, exprs: Seq<ExprView>, from: nat, i: int)
    requires
        exprs_error(env, exprs, from) is None,
        from <= i < exprs.len(),
    ensures
        check_expr(env, exprs[i]) is Ok,
    decreases exprs.len() - from,
{
    if from < i {
        lemma_no_error_at(env, exprs, from + 1, i);
    }
}

/// Taking subscripts of a type with no unknown part leaves a type with no
/// unknown part, and no subscript fails.
pub proof fn lemma_checked_subs_known(env: Env, subs: Seq<ExprView>, from: nat, cur_ty: TyView)
    requires
        cur_ty.known(),
    ensures
        check_subs(env, subs, from, cur_ty) matches Ok(ty) ==> ty.known() && exprs_error(
            env,
            subs,
            from,
        ) is None,
    decreases subs.len() - from,
{
    if from < subs.len() {
        match check_expr(env, subs[from as int]) {
            Ok((checked, value)) => {
                if replaced(checked, value).ty() is Int {
                    match cur_ty {
                        TyView::Array { elem_ty, .. } => lemma_checked_subs_known(
                            env,
                            subs,
                            from + 1,
                            *elem_ty,
                        ),
                        TyView::Ptr(elem_ty) => lemma_checked_subs_known(env, subs, from + 1, *elem_ty),
                        _ => {},
                    }
                }
            },
            Err(_) => {},
        }
    }
}

pub proof fn lemma_replaced_typed(checked: ExprView, value: Option<LiteralExprView>)
    requires
        typed_expr(checked),
        value_known(value),
    ensures
        typed_expr(replaced(checked, value)),
{
}

pub proof fn lemma_checked_assign_typed(env: Env, a: AssignExprView)
    requires
        env_known(env),
    ensures
        check_assign(env, a) matches Ok((checked, value)) ==> typed_expr(ExprView::Assign(checked))
            && value_known(value),
    decreases a, 0nat,
{
    lemma_checked_lexpr_typed(env, *a.lhs, true);
    lemma_checked_expr_typed(env, *a.rhs);
    match (check_lexpr(env, *a.lhs, true), check_expr(env, *a.rhs)) {
        (Ok((lhs, _)), Ok((r1, value))) => {
            lemma_replaced_typed(r1, value);
        },
        _ => {},
    }
}

pub proof fn lemma_checked_unary_typed(env: Env, u: UnaryExprView)
    requires
        env_known(env),
    ensures
        check_unary(env, u) matches Ok((checked, value)) ==> typed_expr(ExprView::Unary(checked))
            && value_known(value),
    decreases u, 0nat,
{
    lemma_checked_expr_typed(env, *u.sub_expr);
    match check_expr(env, *u.sub_expr) {
        Ok((checked, value)) => {
            lemma_replaced_typed(checked, value);
        },
        _ => {},
    }
}

pub proof fn lemma_checked_binary_typed(env: Env, b: BinaryExprView)
    requires
        env_known(env),
    ensures
        check_binary(env, b) matches Ok((checked, value)) ==> typed_expr(ExprView::Binary(checked))
            && value_known(value),
    decreases b, 0nat,
{
    lemma_checked_expr_typed(env, *b.lhs);
    lemma_checked_expr_typed(env, *b.rhs);
    match (check_expr(env, *b.lhs), check_expr(env, *b.rhs)) {
        (Ok((l1, lvalue)), Ok((r1, rvalue))) => {
            lemma_replaced_typed(l1, lvalue);
            lemma_replaced_typed(r1, rvalue);
        },
        _ => {},
    }
}

pub proof fn lemma_checked_call_typed(env: Env, c: CallExprView)
    requires
        env_known(env),
    ensures
        check_call(env, c) matches Ok((checked, value)) ==> typed_expr(ExprView::Call(checked))
            && value_known(value),
    decreases c, 0nat,
{
    if exprs_error(env, c.args, 0) is None {
        lemma_checked_exprs_typed(env, c.args);
        lemma_found_is_known(env, c.func.name);
    }
}

/// A binary operator that the checker has passed has the type of its
/// table: arithmetic is an integer, a comparison or `&&`, `||` a boolean.
pub proof fn lemma_binary_type_table(env: Env, b: BinaryExprView)
    ensures
        check_binary(env, b) matches Ok((checked, _)) ==> checked.ty == match b.op {
            BinaryOp::Add | BinaryOp::Sub | BinaryOp::Mul | BinaryOp::Div | BinaryOp::Mod => TyView::Int,
            BinaryOp::Lt | BinaryOp::Le | BinaryOp::Gt | BinaryOp::Ge | BinaryOp::Eq | BinaryOp::Ne
            | BinaryOp::And | BinaryOp::Or => TyView::Bool,
        },
{
}

/// A name that is declared in a new scope hides the same name of an outer
/// scope and does not clash with it.
pub proof fn lemma_declare_shadows(env: Env, name: Seq<char>, info: TyInfoView)
    ensures
        declare(env.push(Map::empty()), name, info) matches Ok(env1) && scopes_find(env1, name)
            == Some(info) && env1.drop_last() == env,
{
    let opened = env.push(Map::<Seq<char>, TyInfoView>::empty());
    lemma_no_redeclaration(opened, name, info);
    assert(scopes_insert(opened, name, info).drop_last() =~= env);
}

/// A name that is declared twice in one scope is a duplicate.
pub proof fn lemma_redeclare_is_duplicate(
    env: Env,
    name: Seq<char>,
    first: TyInfoView,
    second: TyInfoView,
)
    ensures
        declare(env, name, first) matches Ok(env1) ==> declare(env1, name, second) == Err::<
            Env,
            ErrorView,
        >(ErrorView::DuplicateName(name)),
{
    if scopes_can_insert(env, name) {
        lemma_no_redeclaration(env, name, first);
    }
}

/// One declared name that checks is added to the innermost scope, which did
/// not hold it; nothing else changes.
pub proof fn lemma_sub_decl_declares(
    env: Env,
    global: bool,
    is_const: bool,
    base: TyView,
    sd: SubDeclView,
)
    ensures
        check_sub_decl(env, global, is_const, base, sd) matches Ok((_, env1)) ==> {
            &&& scopes_can_insert(env, sd.ident.name)
            &&& exists|info: TyInfoView| env1 == scopes_insert(env, sd.ident.name, info)
        },
{
    reveal(check_global_sub_decl);
    reveal(check_local_sub_decl);
    match check_sub_decl(env, global, is_const, base, sd) {
        Ok((_, env1)) => {
            let info = env1.last()[sd.ident.name];
            assert(env1 == scopes_insert(env, sd.ident.name, info));
        },
        Err(_) => {},
    }
}

/// Whatever a declaration declares, and whether it checks or not, each
/// name that was bound before it is bound to the same as before: in the
/// scopes around the innermost, which are untouched, and in the innermost.
pub proof fn lemma_decl_keeps_bindings(env: Env, global: bool, d: DeclView, name: Seq<char>)
    requires
        env.len() > 0,
    ensures
        decl_env(env, global, d).len() == env.len(),
        decl_env(env, global, d).drop_last() == env.drop_last(),
        env.last().contains_key(name) ==> decl_env(env, global, d).last().contains_key(name)
            && decl_env(env, global, d).last()[name] == env.last()[name],
{
    lemma_sub_decls_keep_bindings(env, global, d.is_const, ident_ty(d.ty_ident.kind), d.sub_decls, 0, name);
}

pub proof fn lemma_sub_decls_keep_bindings(
    env: Env,
    global: bool,
    is_const: bool,
    base: TyView,
    sds: Seq<SubDeclView>,
    from: nat,
    name: Seq<char>,
)
    requires
        env.len() > 0,
    ensures
        sub_decls_env(env, global, is_const, base, sds, from).len() == env.len(),
        sub_decls_env(env, global, is_const, base, sds, from).drop_last() == env.drop_last(),
        env.last().contains_key(name) ==> sub_decls_env(
            env,
            global,
            is_const,
            base,
            sds,
            from,
        ).last().contains_key(name) && sub_decls_env(env, global, is_const, base, sds, from).last()[name]
            == env.last()[name],
    decreases sds.len() - from,
{
    if from < sds.len() {
        let sd = sds[from as int];
        lemma_sub_decl_declares(env, global, is_const, base, sd);
        match check_sub_decl(env, global, is_const, base, sd) {
            Ok((_, env1)) => {
                assert(env1.drop_last() =~= env.drop_last());
                lemma_sub_decls_keep_bindings(env1, global, is_const, base, sds, from + 1, name);
            },
            Err(_) => {},
        }
    }
}

/// A declaration that checks leaves the scopes that its check gives. One
/// that fails at its first name leaves the scopes as they were: the name is
/// not bound by it.
pub proof fn lemma_decl_env(env: Env, global: bool, d: DeclView)
    ensures
        check_decl(env, global, d) matches Ok((_, env1)) ==> decl_env(env, global, d) == env1,
        d.sub_decls.len() > 0 && check_sub_decl(
            env,
            global,
            d.is_const,
            ident_ty(d.ty_ident.kind),
            d.sub_decls[0],
        ) is Err ==> check_decl(env, global, d) is Err && decl_env(env, global, d) == env,
        d.sub_decls.len() == 1 && check_decl(env, global, d) is Err ==> decl_env(env, global, d)
            == env,
{
    reveal(check_decl);
    lemma_sub_decls_env(env, global, d.is_const, ident_ty(d.ty_ident.kind), d.sub_decls, 0);
    if d.sub_decls.len() == 1 {
        let base = ident_ty(d.ty_ident.kind);
        match check_sub_decl(env, global, d.is_const, base, d.sub_decls[0]) {
            Ok((_, env1)) => {
                assert(check_sub_decls(env1, global, d.is_const, base, d.sub_decls, 1) is Ok);
            },
            Err(_) => {},
        }
    }
}

pub proof fn lemma_sub_decls_env(
    env: Env,
    global: bool,
    is_const: bool,
    base: TyView,
    sds: Seq<SubDeclView>,
    from: nat,
)
    ensures
        check_sub_decls(env, global, is_const, base, sds, from) matches Ok((_, env1))
            ==> sub_decls_env(env, global, is_const, base, sds, from) == env1,
    decreases sds.len() - from,
{
    if from < sds.len() {
        match check_sub_decl(env, global, is_const, base, sds[from as int]) {
            Ok((_, env1)) => lemma_sub_decls_env(env1, global, is_const, base, sds, from + 1),
            Err(_) => {},
        }
    }
}

} // verus!
