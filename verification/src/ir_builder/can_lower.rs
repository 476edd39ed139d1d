//! The test that a program is one that the builder can lower, and the
//! entry that lowers a program after that test.

use vstd::prelude::*;

use crate::ast::{
    AstFunc, AstTy, BlockItem, BlockStmt, Decl, Expr, FuncParam, InitVal, InitValKind, LVal,
    LiteralExpr, LiteralKind, Program, ProgramItem, Stmt, SubDecl,
};
use crate::ast_view::{
    block_items_view, exprs_view, init_vals_view, lemma_block_items_view, lemma_exprs_view,
    lemma_init_vals_view, lemma_literals_view, lemma_tys_view, literals_view, params_view,
    opt_subs_view, sub_decls_view, tys_view, ExprView,
};
use crate::err::{ErrorView, SemanticError};
use crate::ir::constant::literal_typed;
use crate::ir::module::{Module, ModuleView};
use crate::ir_builder::invariants::{
    arg_ty_ok, declare_kind, kinds_after_decls, kinds_after_item, kinds_after_params,
    kinds_after_program_item, kinds_with_builtins, lowerable_block, lowerable_expr,
    lowerable_func, lowerable_global, lowerable_globals, lowerable_init, lowerable_item, lowerable_items,
    lowerable_local, lowerable_locals, lowerable_lval, lowerable_program,
    lowerable_program_item, lowerable_program_items, lowerable_stmt, program_error, Kind,
};
use crate::ir_builder::module_code::lower_program;
use crate::ir_builder::IrBuilder;
use crate::scope::{scopes_find, ScopeBuilder};

verus! {

/// Whether no part of the type is unknown.
#[verifier::loop_isolation(false)]
fn ty_known(ty: &AstTy) -> (out: bool)
    ensures
        out == ty@.known(),
    decreases ty,
{
    match ty {
        AstTy::Unknown => false,
        AstTy::Void | AstTy::Int | AstTy::Bool => true,
        AstTy::Func { ret_ty, param_tys } => {
            if !ty_known(ret_ty) {
                return false;
            }
            proof {
                lemma_tys_view(*param_tys);
            }
            let mut i: usize = 0;
            while i < param_tys.len()
                invariant
                    i <= param_tys.len(),
                    forall|j: int| 0 <= j < i ==> (#[trigger] tys_view(*param_tys)[j]).known(),
                decreases param_tys.len() - i,
            {
                if !ty_known(&param_tys[i]) {
                    assert(ty@->param_tys == tys_view(*param_tys));
                    assert(!ty@->param_tys[i as int].known());
                    return false;
                }
                i += 1;
            }
            true
        },
        AstTy::Array { elem_ty, .. } => ty_known(elem_ty),
        AstTy::Ptr(elem_ty) => ty_known(elem_ty),
    }
}

/// Whether every array literal in the literal has a type without an
/// unknown part.
#[verifier::loop_isolation(false)]
fn literal_is_typed(lit: &LiteralExpr) -> (out: bool)
    ensures
        out == literal_typed(lit@),
    decreases lit,
{
    match &lit.kind {
        LiteralKind::Integer(_) => true,
        LiteralKind::Array(_, vals) => {
            if !ty_known(&lit.ty) {
                return false;
            }
            proof {
                lemma_literals_view(*vals);
            }
            let mut i: usize = 0;
            while i < vals.len()
                invariant
                    i <= vals.len(),
                    forall|j: int| 0 <= j < i ==> literal_typed(#[trigger] literals_view(*vals)[j]),
                decreases vals.len() - i,
            {
                if !literal_is_typed(&vals[i]) {
                    assert(lit@.kind->Array_1 == literals_view(*vals));
                    assert(!literal_typed(lit@.kind->Array_1[i as int]));
                    return false;
                }
                i += 1;
            }
            true
        },
    }
}

fn is_arg_ty(ty: &AstTy) -> (out: bool)
    ensures
        out == arg_ty_ok(ty@),
{
    matches!(ty, AstTy::Int | AstTy::Bool | AstTy::Ptr(_) | AstTy::Array { .. }) && ty_known(ty)
}

fn is_var(kinds: &ScopeBuilder<Kind>, name: &str) -> (out: bool)
    ensures
        out == (scopes_find(kinds@, name@) == Some(Kind::Var)),
{
    matches!(kinds.find_name_rec(name), Some(Kind::Var))
}

fn is_func(kinds: &ScopeBuilder<Kind>, name: &str) -> (out: bool)
    ensures
        out == (scopes_find(kinds@, name@) == Some(Kind::Func)),
{
    matches!(kinds.find_name_rec(name), Some(Kind::Func))
}

/// Whether each of the expressions can be lowered.
#[verifier::loop_isolation(false)]
fn can_lower_exprs(kinds: &ScopeBuilder<Kind>, exprs: &Vec<Expr>) -> (out: bool)
    ensures
        out == (forall|i: int|
            0 <= i < exprs@.len() ==> lowerable_expr(kinds@, #[trigger] exprs_view(*exprs)[i])),
    decreases exprs, 0nat,
{
    proof {
        lemma_exprs_view(*exprs);
    }
    let mut i: usize = 0;
    while i < exprs.len()
        invariant
            i <= exprs.len(),
            forall|j: int| 0 <= j < i ==> lowerable_expr(kinds@, #[trigger] exprs_view(*exprs)[j]),
        decreases exprs.len() - i,
    {
        if !can_lower_expr(kinds, &exprs[i]) {
            assert(!lowerable_expr(kinds@, exprs_view(*exprs)[i as int]));
            return false;
        }
        i += 1;
    }
    true
}

/// Whether a place can be lowered.
fn can_lower_lval(kinds: &ScopeBuilder<Kind>, l: &LVal) -> (out: bool)
    ensures
        out == lowerable_lval(kinds@, l@),
    decreases l, 1nat,
{
    proof {
        assert(l@.ident.name == l.ident.name@);
        assert(l@.ty == l.ty@);
        assert(l@.subs == opt_subs_view(l.subs));
    }
    if !is_var(kinds, l.ident.name.as_str()) {
        return false;
    }
    if !ty_known(&l.ty) {
        return false;
    }
    match &l.subs {
        Some(s) => {
            let ok = can_lower_exprs(kinds, &s.subs);
            proof {
                lemma_exprs_view(s.subs);
                assert(l@.subs == Some(s@));
                assert(s@.subs == exprs_view(s.subs));
                let subs = l@.subs->Some_0.subs;
                assert(subs == exprs_view(s.subs));
                assert(ok == (forall|i: int|
                    0 <= i < subs.len() ==> lowerable_expr(kinds@, #[trigger] subs[i])));
                assert(ok == lowerable_lval(kinds@, l@));
            }
            ok
        },
        None => true,
    }
}

/// Whether an expression can be lowered.
#[verifier::loop_isolation(false)]
fn can_lower_expr(kinds: &ScopeBuilder<Kind>, e: &Expr) -> (out: bool)
    ensures
        out == lowerable_expr(kinds@, e@),
    decreases e, 2nat,
{
    match e {
        Expr::LVal(l) => {
            let ok = can_lower_lval(kinds, l);
            assert(e@ == ExprView::LVal(l@));
            assert(ok == lowerable_expr(kinds@, e@));
            ok
        },
        Expr::Assign(a) => {
            let ok = matches!(&*a.lhs, Expr::LVal(_)) && can_lower_expr(kinds, &a.lhs)
                && can_lower_expr(kinds, &a.rhs);
            assert(e@ == ExprView::Assign(a@));
            assert(*a@.lhs == a.lhs@ && *a@.rhs == a.rhs@);
            assert(ok == lowerable_expr(kinds@, e@));
            ok
        },
        Expr::Literal(l) => {
            let ok = matches!(l.kind, LiteralKind::Integer(_));
            assert(ok == lowerable_expr(kinds@, e@));
            ok
        },
        Expr::Unary(u) => {
            let ok = can_lower_expr(kinds, &u.sub_expr) && ty_known(&u.ty);
            assert(e@ == ExprView::Unary(u@));
            assert(ok == lowerable_expr(kinds@, e@));
            ok
        },
        Expr::Binary(b) => {
            let ok = can_lower_expr(kinds, &b.lhs) && can_lower_expr(kinds, &b.rhs) && ty_known(
                &b.ty,
            );
            assert(e@ == ExprView::Binary(b@));
            assert(ok == lowerable_expr(kinds@, e@));
            ok
        },
        Expr::Call(c) => {
            if !is_func(kinds, c.func.name.as_str()) {
                return false;
            }
            proof {
                lemma_exprs_view(c.args);
            }
            let mut i: usize = 0;
            while i < c.args.len()
                invariant
                    i <= c.args.len(),
                    forall|j: int|
                        0 <= j < i ==> lowerable_expr(kinds@, #[trigger] exprs_view(c.args)[j])
                            && arg_ty_ok(exprs_view(c.args)[j].ty()),
                decreases c.args.len() - i,
            {
                if !can_lower_expr(kinds, &c.args[i]) {
                    assert(!lowerable_expr(kinds@, exprs_view(c.args)[i as int]));
                    return false;
                }
                let ty = c.args[i].ty();
                if !is_arg_ty(&ty) {
                    assert(!arg_ty_ok(exprs_view(c.args)[i as int].ty()));
                    return false;
                }
                i += 1;
            }
            true
        },
    }
}

/// Whether the initializer of a local can be lowered.
#[verifier::loop_isolation(false)]
fn can_lower_init(kinds: &ScopeBuilder<Kind>, init: &InitVal) -> (out: bool)
    ensures
        out == lowerable_init(kinds@, init@),
    decreases init,
{
    match &init.kind {
        InitValKind::Expr(e) => can_lower_expr(kinds, e),
        InitValKind::ArrayVal(vals) => {
            if !matches!(init.ty, AstTy::Array { .. }) {
                return false;
            }
            if !ty_known(&init.ty) {
                return false;
            }
            if vals.len() > 2147483647 {
                return false;
            }
            proof {
                lemma_init_vals_view(*vals);
            }
            let mut i: usize = 0;
            while i < vals.len()
                invariant
                    i <= vals.len(),
                    forall|j: int|
                        0 <= j < i ==> lowerable_init(kinds@, #[trigger] init_vals_view(*vals)[j]),
                decreases vals.len() - i,
            {
                if !can_lower_init(kinds, &vals[i]) {
                    assert(!lowerable_init(kinds@, init_vals_view(*vals)[i as int]));
                    return false;
                }
                i += 1;
            }
            true
        },
        InitValKind::Const(_) => false,
    }
}

/// Declares the names of a local declaration one after the other, each
/// before its initializer, and says whether each can be lowered.
#[verifier::loop_isolation(false)]
fn can_lower_locals(kinds: &mut ScopeBuilder<Kind>, sds: &Vec<SubDecl>) -> (out: bool)
    requires
        old(kinds)@.len() > 0,
    ensures
        out == lowerable_locals(old(kinds)@, sub_decls_view(*sds), 0),
        out ==> final(kinds)@ == kinds_after_decls(old(kinds)@, sub_decls_view(*sds), 0),
        out ==> final(kinds)@.len() == old(kinds)@.len(),
        out ==> final(kinds)@.drop_last() == old(kinds)@.drop_last(),
{
    let ghost views = sub_decls_view(*sds);
    let ghost start = kinds@;
    let mut i: usize = 0;
    while i < sds.len()
        invariant
            i <= sds.len(),
            views == sub_decls_view(*sds),
            kinds@.len() == start.len(),
            kinds@.len() > 0,
            kinds@.drop_last() == start.drop_last(),
            lowerable_locals(start, views, 0) == lowerable_locals(kinds@, views, i as nat),
            kinds_after_decls(start, views, 0) == kinds_after_decls(kinds@, views, i as nat),
        decreases sds.len() - i,
    {
        let ghost cur = kinds@;
        let sd = &sds[i];
        assert(views[i as int] == sd@);
        if !ty_known(&sd.ty) {
            assert(!lowerable_local(cur, views[i as int]));
            assert(!lowerable_locals(cur, views, i as nat));
            return false;
        }
        kinds.insert(sd.ident.name.as_str(), Kind::Var);
        assert(kinds@ == declare_kind(cur, sd@.ident.name, Kind::Var));
        assert(kinds@.drop_last() =~= cur.drop_last());
        if let Some(init) = &sd.init_val {
            assert(sd@.init_val == Some(init@));
            if !can_lower_init(kinds, init) {
                assert(!lowerable_local(cur, views[i as int]));
                assert(!lowerable_locals(cur, views, i as nat));
                return false;
            }
        }
        assert(lowerable_local(cur, views[i as int]));
        i += 1;
    }
    true
}

/// Whether a statement can be lowered. The scopes are left as they were.
fn can_lower_stmt(kinds: &mut ScopeBuilder<Kind>, s: &Stmt) -> (out: bool)
    requires
        old(kinds)@.len() > 0,
    ensures
        out == lowerable_stmt(old(kinds)@, s@),
        out ==> final(kinds)@ == old(kinds)@,
    decreases s, 0nat,
{
    match s {
        Stmt::Expr(e) => can_lower_expr(kinds, e),
        Stmt::Block(b) => can_lower_block(kinds, b),
        Stmt::If(x) => {
            if !can_lower_expr(kinds, &x.cond) {
                return false;
            }
            if !can_lower_stmt(kinds, &x.then_block) {
                return false;
            }
            match &x.else_block {
                Some(e) => can_lower_stmt(kinds, e),
                None => true,
            }
        },
        Stmt::While(w) => {
            if !can_lower_expr(kinds, &w.cond) {
                return false;
            }
            can_lower_stmt(kinds, &w.body)
        },
        Stmt::Break(_) | Stmt::Continue(_) | Stmt::Empty(_) => true,
        Stmt::Return(r) => match &r.val {
            Some(e) => can_lower_expr(kinds, e),
            None => true,
        },
    }
}

/// Whether a block can be lowered, in a scope of its own. The scopes are
/// left as they were.
#[verifier::loop_isolation(false)]
fn can_lower_block(kinds: &mut ScopeBuilder<Kind>, b: &BlockStmt) -> (out: bool)
    requires
        old(kinds)@.len() > 0,
    ensures
        out == lowerable_block(old(kinds)@, b@),
        out ==> final(kinds)@ == old(kinds)@,
    decreases b, 1nat,
{
    let ghost items = block_items_view(b.block_items);
    let ghost outer = kinds@;
    kinds.push_scope();
    let ghost start = kinds@;
    proof {
        lemma_block_items_view(b.block_items);
        assert(start.drop_last() =~= outer);
    }
    let mut i: usize = 0;
    while i < b.block_items.len()
        invariant
            i <= b.block_items.len(),
            kinds@.len() == start.len(),
            kinds@.drop_last() == outer,
            lowerable_items(start, items, 0) == lowerable_items(kinds@, items, i as nat),
        decreases b.block_items.len() - i,
    {
        let ghost cur = kinds@;
        assert(items[i as int] == b.block_items@[i as int]@);
        let ok = match &b.block_items[i] {
            BlockItem::Stmt(s) => can_lower_stmt(kinds, s),
            BlockItem::Decl(d) => can_lower_locals(kinds, &d.sub_decls),
        };
        assert(ok == lowerable_item(cur, items[i as int]));
        if !ok {
            return false;
        }
        assert(kinds@ == kinds_after_item(cur, items[i as int]));
        i += 1;
    }
    kinds.pop_scope();
    true
}

/// Whether the names of a global declaration can be lowered.
#[verifier::loop_isolation(false)]
fn can_lower_globals(d: &Decl) -> (out: bool)
    ensures
        out == lowerable_globals(d@),
{
    let mut i: usize = 0;
    while i < d.sub_decls.len()
        invariant
            i <= d.sub_decls.len(),
            forall|j: int|
                0 <= j < i ==> lowerable_global(#[trigger] d@.sub_decls[j]),
        decreases d.sub_decls.len() - i,
    {
        let sd = &d.sub_decls[i];
        assert(d@.sub_decls[i as int] == sd@);
        if !ty_known(&sd.ty) {
            return false;
        }
        let ok = match &sd.init_val {
            Some(init) => match &init.kind {
                InitValKind::Const(lit) => literal_is_typed(lit),
                _ => false,
            },
            None => true,
        };
        if !ok {
            return false;
        }
        i += 1;
    }
    true
}

/// Declares the names of a declaration as variables.
#[verifier::loop_isolation(false)]
fn declare_vars(kinds: &mut ScopeBuilder<Kind>, sds: &Vec<SubDecl>)
    requires
        old(kinds)@.len() > 0,
    ensures
        final(kinds)@ == kinds_after_decls(old(kinds)@, sub_decls_view(*sds), 0),
        final(kinds)@.len() == old(kinds)@.len(),
{
    let ghost views = sub_decls_view(*sds);
    let ghost start = kinds@;
    let mut i: usize = 0;
    while i < sds.len()
        invariant
            i <= sds.len(),
            views == sub_decls_view(*sds),
            kinds@.len() == start.len(),
            kinds@.len() > 0,
            kinds_after_decls(start, views, 0) == kinds_after_decls(kinds@, views, i as nat),
        decreases sds.len() - i,
    {
        assert(views[i as int] == sds@[i as int]@);
        kinds.insert(sds[i].ident.name.as_str(), Kind::Var);
        i += 1;
    }
}

/// Declares the parameters of a function as variables.
#[verifier::loop_isolation(false)]
fn declare_params(kinds: &mut ScopeBuilder<Kind>, params: &Vec<FuncParam>)
    requires
        old(kinds)@.len() > 0,
    ensures
        final(kinds)@ == kinds_after_params(old(kinds)@, params_view(*params), 0),
        final(kinds)@.len() == old(kinds)@.len(),
        final(kinds)@.drop_last() == old(kinds)@.drop_last(),
{
    let ghost views = params_view(*params);
    let ghost start = kinds@;
    let mut i: usize = 0;
    while i < params.len()
        invariant
            i <= params.len(),
            views == params_view(*params),
            kinds@.len() == start.len(),
            kinds@.len() > 0,
            kinds@.drop_last() == start.drop_last(),
            kinds_after_params(start, views, 0) == kinds_after_params(kinds@, views, i as nat),
        decreases params.len() - i,
    {
        let ghost cur = kinds@;
        assert(views[i as int] == params@[i as int]@);
        kinds.insert(params[i].ident.name.as_str(), Kind::Var);
        assert(kinds@.drop_last() =~= cur.drop_last());
        i += 1;
    }
}

/// Whether a function can be lowered; then its name is declared.
#[verifier::loop_isolation(false)]
fn can_lower_func(kinds: &mut ScopeBuilder<Kind>, f: &AstFunc) -> (out: bool)
    requires
        old(kinds)@.len() > 0,
    ensures
        out == lowerable_func(old(kinds)@, f@),
        out ==> final(kinds)@ == declare_kind(old(kinds)@, f@.ident.name, Kind::Func),
        out ==> final(kinds)@.len() > 0,
{
    let mut i: usize = 0;
    while i < f.params.len()
        invariant
            i <= f.params.len(),
            forall|j: int| 0 <= j < i ==> (#[trigger] f@.params[j]).ty.known(),
        decreases f.params.len() - i,
    {
        assert(f@.params[i as int] == f.params@[i as int]@);
        if !ty_known(&f.params[i].ty) {
            return false;
        }
        i += 1;
    }
    kinds.insert(f.ident.name.as_str(), Kind::Func);
    let ghost declared = kinds@;
    kinds.push_scope();
    assert(kinds@.drop_last() =~= declared);
    declare_params(kinds, &f.params);
    if !can_lower_block(kinds, &f.body) {
        return false;
    }
    kinds.pop_scope();
    true
}

impl IrBuilder {
    /// Whether the program is one that a new builder can lower: one that
    /// the type checker has passed, in which each name stands for what it
    /// is used as.
    #[verifier::loop_isolation(false)]
    pub fn can_lower(program: &Program) -> (out: bool)
        ensures
            out == lowerable_program(Seq::empty(), program@),
    {
        let mut kinds: ScopeBuilder<Kind> = ScopeBuilder::new();
        kinds.push_scope();
        kinds.insert("getint", Kind::Func);
        kinds.insert("getch", Kind::Func);
        kinds.insert("getarray", Kind::Func);
        kinds.insert("putint", Kind::Func);
        kinds.insert("putch", Kind::Func);
        kinds.insert("putarray", Kind::Func);
        let ghost start = kinds@;
        let ghost items = program@.program_items;
        assert(start == kinds_with_builtins(Seq::<Map<Seq<char>, Kind>>::empty().push(Map::empty())));
        let mut i: usize = 0;
        while i < program.program_items.len()
            invariant
                i <= program.program_items.len(),
                kinds@.len() > 0,
                lowerable_program_items(start, items, 0) == lowerable_program_items(
                    kinds@,
                    items,
                    i as nat,
                ),
            decreases program.program_items.len() - i,
        {
            let ghost cur = kinds@;
            assert(items[i as int] == program.program_items@[i as int]@);
            match &program.program_items[i] {
                ProgramItem::Decl(d) => {
                    if !can_lower_globals(d) {
                        return false;
                    }
                    declare_vars(&mut kinds, &d.sub_decls);
                },
                ProgramItem::Func(f) => {
                    if !can_lower_func(&mut kinds, f) {
                        return false;
                    }
                },
            }
            assert(lowerable_program_item(cur, items[i as int]));
            assert(kinds@ == kinds_after_program_item(cur, items[i as int]));
            i += 1;
        }
        true
    }

    /// Lowers a program into a module of its own. `None` says that the
    /// program is not one that the builder can lower, and nothing was
    /// lowered. Else the result is the module that the program lowers to,
    /// each function of it finished, or the error of the first `break` or
    /// `continue` with no loop around it.
    pub fn build(program: &Program) -> (out: Option<Result<Module, SemanticError>>)
        ensures
            out is Some <==> lowerable_program(Seq::empty(), program@),
            out matches Some(result) ==> match program_error(program@.program_items, 0) {
                Some(err) => result matches Err(e) && e@ == err,
                None => {
                    &&& result matches Ok(module)
                    &&& forall|i: int|
                        0 <= i < result->Ok_0.funcs@.len() ==> (#[trigger] result->Ok_0.funcs@[i]).finished()
                    &&& lower_program(
                        (ModuleView { funcs: Seq::empty(), globals: Seq::empty() }),
                        Seq::empty(),
                        program@,
                    ) == Ok::<ModuleView, ErrorView>(result->Ok_0@)
                },
            },
    {
        if !Self::can_lower(program) {
            return None;
        }
        let mut builder = IrBuilder::new();
        proof {
            assert(builder.kinds() =~= Seq::<Map<Seq<char>, Kind>>::empty());
            assert(builder.ctx.cur_module@.funcs =~= Seq::empty());
            assert(builder.ctx.cur_module@.globals =~= Seq::empty());
        }
        match builder.visit(program) {
            Err(e) => Some(Err(e)),
            Ok(_) => Some(Ok(builder.ctx.cur_module)),
        }
    }
}

} // verus!
