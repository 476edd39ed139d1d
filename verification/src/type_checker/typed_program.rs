//! Typedness of whole programs: each expression that is left in a program
//! that the type checker has passed has a type, the names that the checker
//! declares keep the scopes sound, and a constant array holds each of its
//! elements.

use vstd::prelude::*;

use crate::ast_view::{
    AstFuncView, BlockItemView, BlockStmtView, DeclView, ExprView, FuncParamView, InitValKindView,
    InitValView, LiteralExprView, LiteralKindView, ProgramItemView, ProgramView, StmtView,
    SubDeclView, SubsView, TyView,
};
use crate::scope::{scopes_can_insert, scopes_insert};
use crate::span::Span;
use crate::type_checker::model::{
    array_ty, check_block, check_block_item, check_block_items, check_cond, check_const_init,
    check_decl, check_declarator, check_dim, check_expr, check_func, check_global_sub_decl,
    check_init, check_local_sub_decl, check_param, check_program, check_program_item,
    check_program_items, check_return, check_stmt, check_sub_decl, check_sub_decls, const_value,
    declare, declare_if_free, declare_params, dims_checked, dims_error, fit_const_init, fit_init,
    fix_init, fix_literal, fix_literals, fix_literals_error, local_const_value, padded,
    zero_literal,
    fix_inits, fix_inits_error, func_ty, ident_ty, inits_checked, inits_error, int_ptr, param_tys,
    params_checked, params_error, var_info, with_builtins, Env, TyInfoView,
};
use crate::type_checker::refold::env_consts_int;
use crate::type_checker::typed::{
    env_known, info_known, lemma_checked_expr_typed, lemma_replaced_typed,
    typed_expr, typed_exprs,
};

verus! {

pub open spec fn typed_subs(subs: Option<SubsView>) -> bool {
    match subs {
        Some(s) => typed_exprs(s.subs),
        None => true,
    }
}

/// Each expression in the initializer is typed.
pub open spec fn typed_init(init: InitValView) -> bool
    decreases init,
{
    match init.kind {
        InitValKindView::Expr(e) => typed_expr(e),
        InitValKindView::ArrayVal(vals) => forall|i: int|
            0 <= i < vals.len() ==> typed_init(#[trigger] vals[i]),
        InitValKindView::Const(_) => true,
    }
}

pub open spec fn typed_sub_decl(sd: SubDeclView) -> bool {
    &&& sd.ty.known()
    &&& typed_subs(sd.subs)
    &&& match sd.init_val {
        Some(init) => typed_init(init),
        None => true,
    }
}

pub open spec fn typed_decl(d: DeclView) -> bool {
    forall|i: int| 0 <= i < d.sub_decls.len() ==> typed_sub_decl(#[trigger] d.sub_decls[i])
}

/// Each expression in the statement is typed, and each condition is a
/// boolean.
pub open spec fn typed_stmt(s: StmtView) -> bool
    decreases s,
{
    match s {
        StmtView::Expr(e) => typed_expr(e),
        StmtView::Block(b) => typed_block(b),
        StmtView::If(i) => {
            &&& typed_expr(i.cond)
            &&& i.cond.ty() is Bool
            &&& typed_stmt(*i.then_block)
            &&& match i.else_block {
                Some(e) => typed_stmt(*e),
                None => true,
            }
        },
        StmtView::While(w) => typed_expr(w.cond) && w.cond.ty() is Bool && typed_stmt(*w.body),
        StmtView::Break(_) | StmtView::Continue(_) | StmtView::Empty(_) => true,
        StmtView::Return(r) => match r.val {
            Some(e) => typed_expr(e),
            None => true,
        },
    }
}

pub open spec fn typed_block(b: BlockStmtView) -> bool
    decreases b,
{
    typed_items(b.block_items)
}

pub open spec fn typed_items(items: Seq<BlockItemView>) -> bool
    decreases items,
{
    forall|i: int| 0 <= i < items.len() ==> typed_item(#[trigger] items[i])
}

pub open spec fn typed_item(item: BlockItemView) -> bool
    decreases item,
{
    match item {
        BlockItemView::Stmt(s) => typed_stmt(s),
        BlockItemView::Decl(d) => typed_decl(d),
    }
}

pub open spec fn typed_param(p: FuncParamView) -> bool {
    p.ty.known() && typed_subs(p.subs)
}

pub open spec fn typed_func(f: AstFuncView) -> bool {
    &&& forall|i: int| 0 <= i < f.params.len() ==> typed_param(#[trigger] f.params[i])
    &&& typed_block(f.body)
}

pub open spec fn typed_program_item(item: ProgramItemView) -> bool {
    match item {
        ProgramItemView::Decl(d) => typed_decl(d),
        ProgramItemView::Func(f) => typed_func(f),
    }
}

pub open spec fn typed_program_items(items: Seq<ProgramItemView>) -> bool {
    forall|i: int| 0 <= i < items.len() ==> typed_program_item(#[trigger] items[i])
}

/// Each expression that is left in the program has a type with no unknown
/// part, and each operator the type of its table.
pub open spec fn typed_program(p: ProgramView) -> bool {
    typed_program_items(p.program_items)
}

/// The scopes are sound: each name has a type with no unknown part, and
/// the value of each constant is one integer of type `Int`.
pub open spec fn env_sound(env: Env) -> bool {
    env_known(env) && env_consts_int(env)
}

pub open spec fn info_sound(info: TyInfoView) -> bool {
    &&& info_known(info)
    &&& match const_value(info) {
        Some(lit) => lit.ty is Int && lit.kind is Integer,
        None => true,
    }
}

/// The scopes of a checker that has declared nothing are sound.
pub proof fn lemma_no_scopes_sound()
    ensures
        env_sound(Seq::empty()),
{
}

pub proof fn lemma_declare_sound(env: Env, name: Seq<char>, info: TyInfoView)
    requires
        env_sound(env),
        info_sound(info),
    ensures
        declare(env, name, info) matches Ok(env1) ==> env_sound(env1),
        env_sound(declare_if_free(env, name, info)),
{
    if scopes_can_insert(env, name) {
        let env1 = scopes_insert(env, name, info);
        assert forall|s: int, n: Seq<char>| 0 <= s < env1.len() && #[trigger] env1[s].contains_key(
            n,
        ) implies info_sound(env1[s][n]) by {
            if s == env.len() - 1 && n == name {
            } else {
                assert(env[s].contains_key(n));
            }
        }
    }
}

pub proof fn lemma_push_sound(env: Env)
    requires
        env_sound(env),
    ensures
        env_sound(env.push(Map::empty())),
{
    let env1 = env.push(Map::<Seq<char>, TyInfoView>::empty());
    assert forall|s: int, n: Seq<char>| 0 <= s < env1.len() && #[trigger] env1[s].contains_key(
        n,
    ) implies info_sound(env1[s][n]) by {
        if s < env.len() {
            assert(env[s].contains_key(n));
        }
    }
}

/// The array type that dimensions make of a known type is known.
pub proof fn lemma_array_ty_known(base: TyView, dims: Seq<ExprView>, from: nat)
    requires
        base.known(),
    ensures
        array_ty(base, dims, from).known(),
    decreases dims.len() - from,
{
    if from < dims.len() {
        lemma_array_ty_known(base, dims, from + 1);
    }
}

pub proof fn lemma_dims_ok(env: Env, subs: Seq<ExprView>, from: nat, i: int)
    requires
        dims_error(env, subs, from) is None,
        from <= i < subs.len(),
    ensures
        check_dim(env, subs[i]) is Ok,
    decreases subs.len() - from,
{
    if from < i {
        lemma_dims_ok(env, subs, from + 1, i);
    }
}

/// A declarator that the checker has passed has typed dimensions and makes
/// a known type of a known base type.
pub proof fn lemma_declarator_typed(env: Env, base: TyView, subs: Option<SubsView>)
    requires
        env_sound(env),
        base.known(),
    ensures
        check_declarator(env, base, subs) matches Ok((checked, ty)) ==> typed_subs(checked)
            && ty.known(),
{
    match subs {
        Some(s) => {
            if dims_error(env, s.subs, 0) is None {
                let dims = dims_checked(env, s.subs);
                lemma_array_ty_known(base, dims, 0);
                assert forall|i: int| 0 <= i < dims.len() implies typed_expr(#[trigger] dims[i]) by {
                    lemma_dims_ok(env, s.subs, 0, i);
                    lemma_checked_expr_typed(env, s.subs[i]);
                }
            }
        },
        None => {},
    }
}

pub proof fn lemma_inits_ok(env: Env, vals: Seq<InitValView>, from: nat, i: int)
    requires
        inits_error(env, vals, from) is None,
        from <= i < vals.len(),
    ensures
        check_init(env, vals[i]) is Ok,
    decreases vals.len() - from,
{
    if from < i {
        lemma_inits_ok(env, vals, from + 1, i);
    }
}

/// A checked initializer is typed.
pub proof fn lemma_checked_init_typed(env: Env, init: InitValView)
    requires
        env_sound(env),
    ensures
        check_init(env, init) matches Ok(checked) ==> typed_init(checked),
    decreases init,
{
    match init.kind {
        InitValKindView::Expr(x) => {
            lemma_checked_expr_typed(env, x);
            match check_expr(env, x) {
                Ok((checked, value)) => lemma_replaced_typed(checked, value),
                Err(_) => {},
            }
        },
        InitValKindView::ArrayVal(vals) => {
            if inits_error(env, vals, 0) is None {
                let checked = inits_checked(env, vals);
                assert forall|i: int| 0 <= i < checked.len() implies typed_init(#[trigger] checked[i]) by {
                    lemma_inits_ok(env, vals, 0, i);
                    lemma_checked_init_typed(env, vals[i]);
                }
            }
        },
        InitValKindView::Const(_) => {},
    }
}

pub proof fn lemma_fix_inits_ok(vals: Seq<InitValView>, expected: TyView, from: nat, i: int)
    requires
        fix_inits_error(vals, expected, from) is None,
        from <= i < vals.len(),
    ensures
        fix_init(vals[i], expected) is Ok,
    decreases vals.len() - from,
{
    if from < i {
        lemma_fix_inits_ok(vals, expected, from + 1, i);
    }
}

/// Fitting a typed initializer to a type leaves it typed.
pub proof fn lemma_fixed_init_typed(init: InitValView, expected: TyView)
    requires
        typed_init(init),
    ensures
        fix_init(init, expected) matches Ok(fixed) ==> typed_init(fixed),
    decreases init,
{
    match (init.kind, expected) {
        (InitValKindView::ArrayVal(vals), TyView::Array { siz, elem_ty }) => {
            if vals.len() <= siz && fix_inits_error(vals, *elem_ty, 0) is None {
                let fixed = fix_inits(vals, *elem_ty);
                assert forall|i: int| 0 <= i < fixed.len() implies typed_init(#[trigger] fixed[i]) by {
                    lemma_fix_inits_ok(vals, *elem_ty, 0, i);
                    assert(typed_init(vals[i]));
                    lemma_fixed_init_typed(vals[i], *elem_ty);
                }
            }
        },
        _ => {},
    }
}

/// Each array in the literal has as many elements as its size says.
pub open spec fn literal_full(lit: LiteralExprView) -> bool
    decreases lit,
{
    match lit.kind {
        LiteralKindView::Integer(_) => true,
        LiteralKindView::Array(siz, vals) => {
            &&& vals.len() == siz
            &&& forall|i: int| 0 <= i < vals.len() ==> literal_full(#[trigger] vals[i])
        },
    }
}

/// The literal of an element that was not written out is full.
pub proof fn lemma_zero_literal_full(ty: TyView, span: Span)
    ensures
        literal_full(zero_literal(ty, span)),
    decreases ty,
{
    match ty {
        TyView::Array { siz, elem_ty } => {
            lemma_zero_literal_full(*elem_ty, span);
        },
        _ => {},
    }
}

/// Where no literal fails to fit from index `from` on, the one at index `i`
/// fits.
pub proof fn lemma_fix_literals_ok(vals: Seq<LiteralExprView>, expected: TyView, from: nat, i: int)
    requires
        fix_literals_error(vals, expected, from) is None,
        from <= i < vals.len(),
    ensures
        fix_literal(vals[i], expected) is Ok,
    decreases vals.len() - from,
{
    if from < i {
        lemma_fix_literals_ok(vals, expected, from + 1, i);
    }
}

/// An array literal that is made to fit the array it initializes has as
/// many elements as that array, at every level: what was written out,
/// followed by zeros.
pub proof fn lemma_fixed_literal_full(lit: LiteralExprView, ty: TyView)
    requires
        literal_full(lit),
    ensures
        fix_literal(lit, ty) matches Ok(fixed) ==> {
            &&& literal_full(fixed)
            &&& (lit.kind matches LiteralKindView::Array(_, vals) ==> (ty matches TyView::Array {
                siz,
                elem_ty,
            } ==> fixed.kind matches LiteralKindView::Array(n, elems) && n == siz && elems.len()
                == siz && (forall|i: int|
                vals.len() <= i < siz ==> elems[i] == zero_literal(*elem_ty, lit.span))))
        },
    decreases lit,
{
    match (lit.kind, ty) {
        (LiteralKindView::Array(siz, vals), TyView::Array { siz: ty_siz, elem_ty }) => {
            if fix_literal(lit, ty) is Ok {
                let fixed = fix_literals(vals, *elem_ty);
                let zero = zero_literal(*elem_ty, lit.span);
                let elems = padded(fixed, ty_siz, zero);
                lemma_zero_literal_full(*elem_ty, lit.span);
                assert forall|i: int| 0 <= i < elems.len() implies literal_full(
                    #[trigger] elems[i],
                ) by {
                    if i < vals.len() {
                        lemma_fix_literals_ok(vals, *elem_ty, 0, i);
                        lemma_fixed_literal_full(vals[i], *elem_ty);
                        assert(elems[i] == fixed[i]);
                    } else {
                        assert(elems[i] == zero);
                    }
                }
            }
        },
        _ => {},
    }
}

/// The literal of a constant that fits its declared type has that type.
pub proof fn lemma_fit_const(lit: LiteralExprView, ty: TyView)
    requires
        ty.known(),
    ensures
        fit_const_init(lit, ty) matches Ok(fixed) ==> (ty is Int ==> fixed.ty is Int && fixed.kind
            is Integer) && (ty is Array ==> fixed.ty == ty) && (ty is Int || ty is Array),
{
}

pub proof fn lemma_global_sub_decl_typed(env: Env, is_const: bool, base: TyView, sd: SubDeclView)
    requires
        env_sound(env),
        base.known(),
    ensures
        check_global_sub_decl(env, is_const, base, sd) matches Ok((checked, env1)) ==> typed_sub_decl(
            checked,
        ) && env_sound(env1),
{
    reveal(check_global_sub_decl);
    lemma_declarator_typed(env, base, sd.subs);
    match check_declarator(env, base, sd.subs) {
        Ok((subs, ty)) => {
            match sd.init_val {
                Some(init) => {
                    match check_const_init(env, init) {
                        Ok((checked, lit)) => {
                            lemma_fit_const(lit, ty);
                            match fit_const_init(lit, ty) {
                                Ok(fixed) => {
                                    lemma_declare_sound(
                                        env,
                                        sd.ident.name,
                                        TyInfoView {
                                            ty,
                                            const_val: if is_const {
                                                Some(fixed)
                                            } else {
                                                None
                                            },
                                            is_const,
                                        },
                                    );
                                },
                                Err(_) => {},
                            }
                        },
                        Err(_) => {},
                    }
                },
                None => {
                    lemma_declare_sound(
                        env,
                        sd.ident.name,
                        TyInfoView { ty, const_val: None, is_const },
                    );
                },
            }
        },
        Err(_) => {},
    }
}

pub proof fn lemma_local_sub_decl_typed(env: Env, is_const: bool, base: TyView, sd: SubDeclView)
    requires
        env_sound(env),
        base.known(),
    ensures
        check_local_sub_decl(env, is_const, base, sd) matches Ok((checked, env1)) ==> typed_sub_decl(
            checked,
        ) && env_sound(env1),
{
    reveal(check_local_sub_decl);
    lemma_declarator_typed(env, base, sd.subs);
    match check_declarator(env, base, sd.subs) {
        Ok((subs, ty)) => {
            lemma_declare_sound(env, sd.ident.name, TyInfoView { ty, const_val: None, is_const });
            match sd.init_val {
                Some(init) => {
                    lemma_checked_init_typed(env, init);
                    match check_init(env, init) {
                        Ok(checked) => {
                            lemma_fixed_init_typed(checked, ty);
                            match fit_init(checked, ty) {
                                Ok(fixed) => {
                                    lemma_declare_sound(
                                        env,
                                        sd.ident.name,
                                        TyInfoView {
                                            ty,
                                            const_val: local_const_value(is_const, fixed),
                                            is_const,
                                        },
                                    );
                                },
                                Err(_) => {},
                            }
                        },
                        Err(_) => {},
                    }
                },
                None => {},
            }
        },
        Err(_) => {},
    }
}

pub proof fn lemma_sub_decls_typed(
    env: Env,
    global: bool,
    is_const: bool,
    base: TyView,
    sds: Seq<SubDeclView>,
    from: nat,
)
    requires
        env_sound(env),
        base.known(),
    ensures
        check_sub_decls(env, global, is_const, base, sds, from) matches Ok((checked, env1)) ==> (
        forall|i: int| 0 <= i < checked.len() ==> typed_sub_decl(#[trigger] checked[i]))
            && env_sound(env1),
    decreases sds.len() - from,
{
    if from < sds.len() {
        if global {
            lemma_global_sub_decl_typed(env, is_const, base, sds[from as int]);
        } else {
            lemma_local_sub_decl_typed(env, is_const, base, sds[from as int]);
        }
        match check_sub_decl(env, global, is_const, base, sds[from as int]) {
            Ok((sd, env1)) => {
                lemma_sub_decls_typed(env1, global, is_const, base, sds, from + 1);
            },
            Err(_) => {},
        }
    }
}

/// A declaration that the checker has passed is typed, and leaves the
/// scopes sound.
pub proof fn lemma_decl_typed(env: Env, global: bool, d: DeclView)
    requires
        env_sound(env),
    ensures
        check_decl(env, global, d) matches Ok((checked, env1)) ==> typed_decl(checked) && env_sound(
            env1,
        ),
{
    reveal(check_decl);
    lemma_sub_decls_typed(env, global, d.is_const, ident_ty(d.ty_ident.kind), d.sub_decls, 0);
}

/// A statement that the checker has passed is typed.
pub proof fn lemma_stmt_typed(env: Env, ret_ty: TyView, s: StmtView)
    requires
        env_sound(env),
    ensures
        check_stmt(env, ret_ty, s) matches Ok(checked) ==> typed_stmt(checked),
    decreases s, 0nat,
{
    reveal(check_cond);
    reveal(check_return);
    match s {
        StmtView::Expr(e) => lemma_checked_expr_typed(env, e),
        StmtView::Block(b) => lemma_block_typed(env, ret_ty, b),
        StmtView::If(i) => {
            lemma_checked_expr_typed(env, i.cond);
            lemma_stmt_typed(env, ret_ty, *i.then_block);
            match i.else_block {
                Some(e) => lemma_stmt_typed(env, ret_ty, *e),
                None => {},
            }
        },
        StmtView::While(w) => {
            lemma_checked_expr_typed(env, w.cond);
            lemma_stmt_typed(env, ret_ty, *w.body);
        },
        StmtView::Return(r) => match r.val {
            Some(e) => lemma_checked_expr_typed(env, e),
            None => {},
        },
        _ => {},
    }
}

pub proof fn lemma_block_typed(env: Env, ret_ty: TyView, b: BlockStmtView)
    requires
        env_sound(env),
    ensures
        check_block(env, ret_ty, b) matches Ok(checked) ==> typed_block(checked),
    decreases b, 0nat,
{
    lemma_push_sound(env);
    lemma_items_typed(env.push(Map::empty()), ret_ty, b.block_items, 0);
}

pub proof fn lemma_items_typed(env: Env, ret_ty: TyView, items: Seq<BlockItemView>, from: nat)
    requires
        env_sound(env),
    ensures
        check_block_items(env, ret_ty, items, from) matches Ok((checked, _)) ==> typed_items(checked),
    decreases items, items.len() - from,
{
    if from < items.len() {
        match items[from as int] {
            BlockItemView::Stmt(s) => lemma_stmt_typed(env, ret_ty, s),
            BlockItemView::Decl(d) => lemma_decl_typed(env, false, d),
        }
        match check_block_item(env, ret_ty, items[from as int]) {
            Ok((item, env1)) => {
                lemma_items_typed(env1, ret_ty, items, from + 1);
                match check_block_items(env1, ret_ty, items, from + 1) {
                    Ok((rest, _)) => {
                        let all = seq![item] + rest;
                        assert forall|i: int| 0 <= i < all.len() implies typed_item(#[trigger] all[i]) by {
                            if i > 0 {
                                assert(all[i] == rest[i - 1]);
                            }
                        }
                    },
                    Err(_) => {},
                }
            },
            Err(_) => {},
        }
    }
}

pub proof fn lemma_params_ok(env: Env, params: Seq<FuncParamView>, from: nat, i: int)
    requires
        params_error(env, params, from) is None,
        from <= i < params.len(),
    ensures
        check_param(env, params[i]) is Ok,
    decreases params.len() - from,
{
    if from < i {
        lemma_params_ok(env, params, from + 1, i);
    }
}

pub proof fn lemma_declare_params_sound(env: Env, params: Seq<FuncParamView>, from: nat)
    requires
        env_sound(env),
        forall|i: int| 0 <= i < params.len() ==> (#[trigger] params[i]).ty.known(),
    ensures
        declare_params(env, params, from) matches Ok(env1) ==> env_sound(env1),
    decreases params.len() - from,
{
    if from < params.len() {
        lemma_declare_sound(env, params[from as int].ident.name, var_info(params[from as int].ty));
        match declare(env, params[from as int].ident.name, var_info(params[from as int].ty)) {
            Ok(env1) => lemma_declare_params_sound(env1, params, from + 1),
            Err(_) => {},
        }
    }
}

/// A function that the checker has passed is typed, and leaves the scopes
/// sound.
pub proof fn lemma_func_typed(env: Env, f: AstFuncView)
    requires
        env_sound(env),
    ensures
        check_func(env, f) matches Ok((checked, env1)) ==> typed_func(checked) && env_sound(env1),
{
    reveal(check_func);
    let ret_ty = ident_ty(f.ret_ty_ident.kind);
    if params_error(env, f.params, 0) is None {
        let params = params_checked(env, f.params);
        assert forall|i: int| 0 <= i < params.len() implies typed_param(#[trigger] params[i]) by {
            lemma_params_ok(env, f.params, 0, i);
            lemma_declarator_typed(env, ident_ty(f.params[i].ty_ident.kind), f.params[i].subs);
        }
        let fty = TyView::Func { ret_ty: Box::new(ret_ty), param_tys: param_tys(params) };
        assert(fty.known()) by {
            reveal_with_fuel(TyView::known, 2);
            assert forall|i: int| 0 <= i < param_tys(params).len() implies (
            #[trigger] param_tys(params)[i]).known() by {
                assert(typed_param(params[i]));
            }
        }
        lemma_declare_sound(env, f.ident.name, var_info(fty));
        match declare(env, f.ident.name, var_info(fty)) {
            Ok(env1) => {
                lemma_push_sound(env1);
                assert forall|i: int| 0 <= i < params.len() implies (#[trigger] params[i]).ty.known() by {
                    assert(typed_param(params[i]));
                }
                lemma_declare_params_sound(env1.push(Map::empty()), params, 0);
                match declare_params(env1.push(Map::empty()), params, 0) {
                    Ok(env2) => lemma_block_typed(env2, ret_ty, f.body),
                    Err(_) => {},
                }
            },
            Err(_) => {},
        }
    }
}

pub proof fn lemma_program_items_typed(env: Env, items: Seq<ProgramItemView>, from: nat)
    requires
        env_sound(env),
    ensures
        check_program_items(env, items, from) matches Ok((checked, _)) ==> typed_program_items(
            checked,
        ),
    decreases items.len() - from,
{
    if from < items.len() {
        match items[from as int] {
            ProgramItemView::Decl(d) => lemma_decl_typed(env, true, d),
            ProgramItemView::Func(f) => lemma_func_typed(env, f),
        }
        match check_program_item(env, items[from as int]) {
            Ok((item, env1)) => {
                lemma_program_items_typed(env1, items, from + 1);
                match check_program_items(env1, items, from + 1) {
                    Ok((rest, _)) => {
                        let all = seq![item] + rest;
                        assert forall|i: int| 0 <= i < all.len() implies typed_program_item(
                            #[trigger] all[i],
                        ) by {
                            if i > 0 {
                                assert(all[i] == rest[i - 1]);
                            }
                        }
                    },
                    Err(_) => {},
                }
            },
            Err(_) => {},
        }
    }
}

/// The scopes with the runtime library declared are sound.
pub proof fn lemma_builtins_sound(env: Env)
    requires
        env_sound(env),
    ensures
        env_sound(with_builtins(env)),
{
    let f0 = var_info(func_ty(TyView::Int, seq![]));
    let f1 = var_info(func_ty(TyView::Int, seq![int_ptr()]));
    let f2 = var_info(func_ty(TyView::Void, seq![TyView::Int]));
    let f3 = var_info(func_ty(TyView::Int, seq![TyView::Int, int_ptr()]));
    reveal_with_fuel(TyView::known, 4);
    assert(int_ptr().known());
    assert(info_sound(f0));
    assert(info_sound(f1));
    assert(info_sound(f2));
    assert(info_sound(f3));
    let e1 = declare_if_free(env, "getint"@, f0);
    lemma_declare_sound(env, "getint"@, f0);
    let e2 = declare_if_free(e1, "getch"@, f0);
    lemma_declare_sound(e1, "getch"@, f0);
    let e3 = declare_if_free(e2, "getarray"@, f1);
    lemma_declare_sound(e2, "getarray"@, f1);
    let e4 = declare_if_free(e3, "putint"@, f2);
    lemma_declare_sound(e3, "putint"@, f2);
    let e5 = declare_if_free(e4, "putch"@, f2);
    lemma_declare_sound(e4, "putch"@, f2);
    lemma_declare_sound(e5, "putarray"@, f3);
}

/// In a program that the checker has passed, no expression is left
/// without a type: the type of each node has no unknown part, a binary
/// operator has the type of its table, a unary operator is an integer or
/// takes the type of its operand, and each condition is a boolean.
pub proof fn lemma_checked_program_typed(env: Env, p: ProgramView)
    requires
        env_sound(env),
    ensures
        check_program(env, p) matches Ok(checked) ==> typed_program(checked),
{
    lemma_push_sound(env);
    lemma_builtins_sound(env.push(Map::empty()));
    lemma_program_items_typed(with_builtins(env.push(Map::empty())), p.program_items, 0);
}

/// A program that a new checker has passed is typed: with no name declared
/// beforehand, nothing more is asked of the scopes.
pub proof fn lemma_checked_by_new_checker_typed(p: ProgramView)
    ensures
        check_program(Seq::empty(), p) matches Ok(checked) ==> typed_program(checked),
{
    lemma_no_scopes_sound();
    lemma_checked_program_typed(Seq::empty(), p);
}

} // verus!
