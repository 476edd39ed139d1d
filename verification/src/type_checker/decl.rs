use vstd::prelude::*;
use vstd::string::StringExecFns;

use crate::ast::{
    AstFunc, AstTy, Decl, Expr, FuncParam, InitVal, InitValKind, LiteralExpr, LiteralKind, Program,
    ProgramItem, SubDecl,
};
use crate::ast_view::{
    lemma_tys_view, params_view, program_items_view, tys_view, ProgramItemView, SubDeclView,
    TyView,
};
use crate::context::{lemma_env_drop_last, lemma_env_insert, lemma_env_push, opt_literal_view, TyInfo};
use crate::err::{ErrorView, Expected, SemanticError};
use crate::type_checker::{assert_type_eq, TypeChecker};
use crate::type_checker::model::{
    check_decl, check_func, check_global_sub_decl, check_local_sub_decl, check_program,
    check_program_item, check_program_items, check_sub_decl, check_sub_decls, decl_env, declare,
    sub_decls_env,
    declare_params, func_refused, func_ty, ident_ty, int_ptr, local_const_value, param_tys, params_checked, params_error,
    parsed_decl, parsed_func, parsed_program, parsed_program_item, parsed_program_items, parsed_sub_decl, parsed_subs,
    ret_ty_upto, var_info, with_builtins, Env,
};

verus! {

/// A declaration touches the innermost scope alone.
pub open spec fn same_outer_scopes(before: Env, after: Env) -> bool {
    after.len() == before.len() && after.drop_last() == before.drop_last()
}

fn func_info(ret_ty: AstTy, param_tys: Vec<AstTy>) -> (out: TyInfo)
    ensures
        out@ == var_info(func_ty(ret_ty@, tys_view(param_tys))),
{
    TyInfo { ty: AstTy::Func { ret_ty: Box::new(ret_ty), param_tys }, const_val: None, is_const: false }
}

/// The types of the parameters of a function.
fn param_types(params: &Vec<FuncParam>) -> (out: Vec<AstTy>)
    ensures
        tys_view(out) == param_tys(params_view(*params)),
{
    let mut tys: Vec<AstTy> = Vec::new();
    let mut i: usize = 0;
    while i < params.len()
        invariant
            i <= params.len(),
            tys.len() == i,
            forall|j: int| 0 <= j < i ==> #[trigger] tys@[j]@ == params@[j].ty@,
        decreases params.len() - i,
    {
        tys.push(params[i].ty.clone());
        i += 1;
    }
    proof {
        lemma_tys_view(tys);
        assert(tys_view(tys) =~= param_tys(params_view(*params)));
    }
    tys
}

/// The value that the name of a local declaration keeps.
fn local_const(is_const: bool, init_val: &InitVal) -> (out: Option<LiteralExpr>)
    ensures
        opt_literal_view(out) == local_const_value(is_const, init_val@),
{
    match &init_val.kind {
        InitValKind::Expr(Expr::Literal(lit)) => {
            if is_const && matches!(lit.ty, AstTy::Int) && matches!(lit.kind, LiteralKind::Integer(_)) {
                Some(lit.clone())
            } else {
                None
            }
        },
        _ => None,
    }
}

fn int_ptr_ty() -> (out: AstTy)
    ensures
        out@ == int_ptr(),
{
    proof {
        reveal_with_fuel(AstTy::view, 2);
    }
    AstTy::Ptr(Box::new(AstTy::Int))
}

impl TypeChecker {
    /// Declares `name` in the innermost scope; a name that this scope holds
    /// already is an error.
    pub fn declare(&mut self, name: &str, info: TyInfo) -> (out: Result<(), SemanticError>)
        requires
            old(self).scopes@.len() > 0,
        ensures
            final(self).cur_func_ret_ty == old(self).cur_func_ret_ty,
            same_outer_scopes(old(self).env(), final(self).env()),
            match declare(old(self).env(), name@, info@) {
                Ok(env) => out is Ok && final(self).env() == env,
                Err(err) => out matches Err(e) && e@ == err && final(self).scopes@ == old(self).scopes@,
            },
    {
        proof {
            lemma_env_insert(self.scopes@, name@, info);
        }
        let inserted = self.scopes.insert(name, info).is_some();
        proof {
            assert(self.env().drop_last() =~= old(self).env().drop_last());
        }
        if inserted {
            Ok(())
        } else {
            Err(SemanticError::DuplicateName(String::from_str(name)))
        }
    }

    /// Declares the six functions of the runtime library in the innermost
    /// scope.
    pub fn push_built_in_funcs(&mut self)
        requires
            old(self).scopes@.len() > 0,
        ensures
            final(self).cur_func_ret_ty == old(self).cur_func_ret_ty,
            same_outer_scopes(old(self).env(), final(self).env()),
            final(self).env() == with_builtins(old(self).env()),
    {
        let ghost env0 = self.env();
        let no_params: Vec<AstTy> = Vec::new();
        proof {
            lemma_tys_view(no_params);
            assert(tys_view(no_params) =~= seq![]);
        }
        let _ = self.declare("getint", func_info(AstTy::Int, no_params));

        let no_params: Vec<AstTy> = Vec::new();
        proof {
            lemma_tys_view(no_params);
            assert(tys_view(no_params) =~= seq![]);
        }
        let _ = self.declare("getch", func_info(AstTy::Int, no_params));

        let mut params: Vec<AstTy> = Vec::new();
        params.push(int_ptr_ty());
        proof {
            lemma_tys_view(params);
            assert(tys_view(params) =~= seq![int_ptr()]);
        }
        let _ = self.declare("getarray", func_info(AstTy::Int, params));

        let mut params: Vec<AstTy> = Vec::new();
        params.push(AstTy::Int);
        proof {
            lemma_tys_view(params);
            assert(tys_view(params) =~= seq![TyView::Int]);
        }
        let _ = self.declare("putint", func_info(AstTy::Void, params));

        let mut params: Vec<AstTy> = Vec::new();
        params.push(AstTy::Int);
        proof {
            lemma_tys_view(params);
            assert(tys_view(params) =~= seq![TyView::Int]);
        }
        let _ = self.declare("putch", func_info(AstTy::Void, params));

        let mut params: Vec<AstTy> = Vec::new();
        params.push(AstTy::Int);
        params.push(int_ptr_ty());
        proof {
            lemma_tys_view(params);
            assert(tys_view(params) =~= seq![TyView::Int, int_ptr()]);
        }
        let _ = self.declare("putarray", func_info(AstTy::Int, params));
        proof {
            assert(self.env().drop_last() =~= env0.drop_last());
        }
    }

    /// Checks one declared name of a global declaration and declares it.
    pub fn visit_global_sub_decl(&mut self, is_const: bool, base_ty: &AstTy, sub_decl: &mut SubDecl) -> (out:
        Result<(), SemanticError>)
        requires
            old(self).scopes@.len() > 0,
            parsed_sub_decl(old(sub_decl)@),
        ensures
            final(self).cur_func_ret_ty == old(self).cur_func_ret_ty,
            out is Ok ==> final(self).scopes@.len() == old(self).scopes@.len(),
            out is Ok ==> same_outer_scopes(old(self).env(), final(self).env()),
            match check_global_sub_decl(old(self).env(), is_const, base_ty@, old(sub_decl)@) {
                Ok((checked, env)) => out is Ok && final(sub_decl)@ == checked && final(self).env()
                    == env,
                Err(err) => out matches Err(e) && e@ == err,
            },
            out is Err ==> final(self).scopes@ == old(self).scopes@,
    {
        reveal(check_global_sub_decl);
        let ty = match self.build_ast_ty(base_ty, &mut sub_decl.subs) {
            Ok(ty) => ty,
            Err(e) => {
                return Err(e);
            },
        };
        let init_val = if let Some(init_val) = &mut sub_decl.init_val {
            let mut literal = match self.visit_const_init_val(init_val) {
                Ok(literal) => literal,
                Err(e) => {
                    return Err(e);
                },
            };
            match &ty {
                AstTy::Int => {
                    if !matches!(literal.kind, LiteralKind::Integer(_)) {
                        return Err(
                            SemanticError::TypeMismatch {
                                expected: Expected::Type(ty),
                                found: literal.ty,
                            },
                        );
                    }
                    match assert_type_eq(&ty, &literal.ty) {
                        Ok(_) => {},
                        Err(e) => {
                            return Err(e);
                        },
                    }
                },
                AstTy::Array { .. } => match Self::fix_array_literal(&mut literal, &ty) {
                    Ok(_) => {},
                    Err(e) => {
                        return Err(e);
                    },
                },
                _ => {
                    return Err(SemanticError::TypeMismatch { expected: Expected::Int, found: ty });
                },
            }
            init_val.kind = InitValKind::Const(literal.clone());
            Some(literal)
        } else {
            None
        };

        if is_const && init_val.is_none() {
            return Err(SemanticError::RequireConstant);
        }
        sub_decl.ty = ty.clone();

        let info = TyInfo {
            ty,
            const_val: if is_const {
                init_val
            } else {
                None
            },
            is_const,
        };
        self.declare(sub_decl.ident.name.as_str(), info)
    }

    /// Checks one declared name of a local declaration and declares it.
    pub fn visit_local_sub_decl(&mut self, is_const: bool, base_ty: &AstTy, sub_decl: &mut SubDecl) -> (out:
        Result<(), SemanticError>)
        requires
            old(self).scopes@.len() > 0,
            parsed_sub_decl(old(sub_decl)@),
        ensures
            final(self).cur_func_ret_ty == old(self).cur_func_ret_ty,
            out is Ok ==> final(self).scopes@.len() == old(self).scopes@.len(),
            out is Ok ==> same_outer_scopes(old(self).env(), final(self).env()),
            match check_local_sub_decl(old(self).env(), is_const, base_ty@, old(sub_decl)@) {
                Ok((checked, env)) => out is Ok && final(sub_decl)@ == checked && final(self).env()
                    == env,
                Err(err) => out matches Err(e) && e@ == err,
            },
            out is Err ==> final(self).scopes@ == old(self).scopes@,
    {
        reveal(check_local_sub_decl);
        let ty = match self.build_ast_ty(base_ty, &mut sub_decl.subs) {
            Ok(ty) => ty,
            Err(e) => {
                return Err(e);
            },
        };
        if let Some(init_val) = &mut sub_decl.init_val {
            match self.visit_init_val(init_val) {
                Ok(_) => {},
                Err(e) => {
                    return Err(e);
                },
            }
            match &ty {
                AstTy::Int => match assert_type_eq(&ty, &init_val.ty) {
                    Ok(_) => {},
                    Err(e) => {
                        return Err(e);
                    },
                },
                AstTy::Array { .. } => match Self::fix_array_init_val(init_val, &ty) {
                    Ok(_) => {},
                    Err(e) => {
                        return Err(e);
                    },
                },
                _ => {
                    return Err(SemanticError::TypeMismatch { expected: Expected::Int, found: ty });
                },
            }
        }
        if is_const && sub_decl.init_val.is_none() {
            return Err(SemanticError::RequireConstant);
        }
        sub_decl.ty = ty.clone();

        let const_val = match &sub_decl.init_val {
            Some(init_val) => local_const(is_const, init_val),
            None => None,
        };
        let ty_info = TyInfo { ty, const_val, is_const };
        self.declare(sub_decl.ident.name.as_str(), ty_info)
    }

    /// Checks the names of a declaration one after the other; `global` says
    /// which rules hold for the initializers.
    pub fn visit_decl(&mut self, decl: &mut Decl, global: bool) -> (out: Result<(), SemanticError>)
        requires
            old(self).scopes@.len() > 0,
            parsed_decl(old(decl)@),
        ensures
            final(self).cur_func_ret_ty == old(self).cur_func_ret_ty,
            out is Ok ==> final(self).scopes@.len() == old(self).scopes@.len(),
            out is Ok ==> same_outer_scopes(old(self).env(), final(self).env()),
            match check_decl(old(self).env(), global, old(decl)@) {
                Ok((checked, env)) => out is Ok && final(decl)@ == checked && final(self).env()
                    == env,
                Err(err) => out matches Err(e) && e@ == err,
            },
            final(self).env() == decl_env(old(self).env(), global, old(decl)@),
    {
        reveal(check_decl);
        let ty = match self.visit_ty(&mut decl.ty_ident) {
            Ok(ty) => ty,
            Err(e) => {
                return Err(e);
            },
        };
        let ghost env0 = self.env();
        let ghost old_views = old(decl)@.sub_decls;
        let ghost mut done: Seq<SubDeclView> = Seq::empty();
        let is_const = decl.is_const;
        let mut i: usize = 0;
        while i < decl.sub_decls.len()
            invariant
                i <= decl.sub_decls.len(),
                decl.sub_decls.len() == old_views.len(),
                decl.is_const == old(decl).is_const,
                is_const == decl.is_const,
                decl.ty_ident == old(decl).ty_ident,
                decl.span == old(decl).span,
                ty@ == ident_ty(decl.ty_ident.kind),
                old_views == old(decl)@.sub_decls,
                parsed_decl(old(decl)@),
                env0 == old(self).env(),
                self.scopes@.len() == old(self).scopes@.len(),
                self.scopes@.len() > 0,
                self.cur_func_ret_ty == old(self).cur_func_ret_ty,
                same_outer_scopes(env0, self.env()),
                done.len() == i,
                forall|j: int| 0 <= j < i ==> #[trigger] decl.sub_decls@[j]@ == done[j],
                forall|j: int| i <= j < decl.sub_decls.len() ==> #[trigger] decl.sub_decls@[j]@ == old_views[j],
                match check_sub_decls(self.env(), global, is_const, ty@, old_views, i as nat) {
                    Ok((rest, env)) => check_sub_decls(env0, global, is_const, ty@, old_views, 0)
                        == Ok::<(Seq<SubDeclView>, Env), ErrorView>((done + rest, env)),
                    Err(err) => check_sub_decls(env0, global, is_const, ty@, old_views, 0) == Err::<
                        (Seq<SubDeclView>, Env),
                        ErrorView,
                    >(err),
                },
                sub_decls_env(env0, global, is_const, ty@, old_views, 0) == sub_decls_env(
                    self.env(),
                    global,
                    is_const,
                    ty@,
                    old_views,
                    i as nat,
                ),
            decreases decl.sub_decls.len() - i,
        {
            let ghost env_i = self.env();
            let result = if global {
                self.visit_global_sub_decl(is_const, &ty, &mut decl.sub_decls[i])
            } else {
                self.visit_local_sub_decl(is_const, &ty, &mut decl.sub_decls[i])
            };
            match result {
                Err(e) => {
                    proof {
                        reveal(check_decl);
                    }
                    return Err(e);
                },
                Ok(_) => {},
            }
            proof {
                let sd = decl.sub_decls@[i as int]@;
                let step = check_sub_decl(env_i, global, is_const, ty@, old_views[i as int]);
                assert(step == Ok::<(SubDeclView, Env), ErrorView>((sd, self.env())));
                match check_sub_decls(self.env(), global, is_const, ty@, old_views, (i + 1) as nat) {
                    Ok((rest, env)) => {
                        assert(done + (seq![sd] + rest) =~= done.push(sd) + rest);
                    },
                    Err(_) => {},
                }
                done = done.push(sd);
            }
            i += 1;
        }
        proof {
            assert(done + Seq::<SubDeclView>::empty() =~= done);
            assert(decl@.sub_decls =~= done);
        }
        Ok(())
    }

    pub fn visit_global_decl(&mut self, decl: &mut Decl) -> (out: Result<(), SemanticError>)
        requires
            old(self).scopes@.len() > 0,
            parsed_decl(old(decl)@),
        ensures
            final(self).cur_func_ret_ty == old(self).cur_func_ret_ty,
            out is Ok ==> final(self).scopes@.len() == old(self).scopes@.len(),
            out is Ok ==> same_outer_scopes(old(self).env(), final(self).env()),
            match check_decl(old(self).env(), true, old(decl)@) {
                Ok((checked, env)) => out is Ok && final(decl)@ == checked && final(self).env()
                    == env,
                Err(err) => out matches Err(e) && e@ == err,
            },
            final(self).env() == decl_env(old(self).env(), true, old(decl)@),
    {
        self.visit_decl(decl, true)
    }

    pub fn visit_decl_stmt(&mut self, decl: &mut Decl) -> (out: Result<(), SemanticError>)
        requires
            old(self).scopes@.len() > 0,
            parsed_decl(old(decl)@),
        ensures
            final(self).cur_func_ret_ty == old(self).cur_func_ret_ty,
            out is Ok ==> final(self).scopes@.len() == old(self).scopes@.len(),
            out is Ok ==> same_outer_scopes(old(self).env(), final(self).env()),
            match check_decl(old(self).env(), false, old(decl)@) {
                Ok((checked, env)) => out is Ok && final(decl)@ == checked && final(self).env()
                    == env,
                Err(err) => out matches Err(e) && e@ == err,
            },
            final(self).env() == decl_env(old(self).env(), false, old(decl)@),
    {
        self.visit_decl(decl, false)
    }

    /// Checks the types of the parameters of a function.
    pub fn visit_func_params(&mut self, params: &mut Vec<FuncParam>) -> (out: Result<
        (),
        SemanticError,
    >)
        requires
            forall|i: int|
                0 <= i < old(params)@.len() ==> parsed_subs((#[trigger] old(params)@[i])@.subs),
        ensures
            final(self).scopes@ == old(self).scopes@,
            final(self).cur_func_ret_ty == old(self).cur_func_ret_ty,
            match params_error(old(self).env(), params_view(*old(params)), 0) {
                None => out is Ok && params_view(*final(params)) == params_checked(
                    old(self).env(),
                    params_view(*old(params)),
                ),
                Some(err) => out matches Err(e) && e@ == err,
            },
    {
        let ghost env = self.env();
        let ghost old_params = *params;
        let ghost old_views = params_view(old_params);
        let mut i: usize = 0;
        while i < params.len()
            invariant
                i <= params.len(),
                params.len() == old_params.len(),
                old_params == *old(params),
                old_views == params_view(old_params),
                env == old(self).env(),
                self.scopes@ == old(self).scopes@,
                self.cur_func_ret_ty == old(self).cur_func_ret_ty,
                forall|j: int|
                    0 <= j < old_params@.len() ==> parsed_subs((#[trigger] old_params@[j])@.subs),
                forall|j: int| i <= j < params.len() ==> params@[j] == old_params@[j],
                forall|j: int|
                    0 <= j < i ==> #[trigger] params@[j]@ == params_checked(env, old_views)[j],
                params_error(env, old_views, 0) == params_error(env, old_views, i as nat),
            decreases params.len() - i,
        {
            proof {
                assert(old_views[i as int] == old_params@[i as int]@);
            }
            match self.visit_func_param(&mut params[i]) {
                Err(e) => {
                    return Err(e);
                },
                Ok(_) => {},
            }
            i += 1;
        }
        proof {
            assert(params_view(*params) =~= params_checked(env, old_views));
        }
        Ok(())
    }

    /// Declares the parameters of a function in the innermost scope.
    pub fn declare_params(&mut self, params: &Vec<FuncParam>) -> (out: Result<(), SemanticError>)
        requires
            old(self).scopes@.len() > 0,
        ensures
            final(self).cur_func_ret_ty == old(self).cur_func_ret_ty,
            out is Ok ==> final(self).scopes@.len() == old(self).scopes@.len(),
            out is Ok ==> same_outer_scopes(old(self).env(), final(self).env()),
            match declare_params(old(self).env(), params_view(*params), 0) {
                Ok(env) => out is Ok && final(self).env() == env,
                Err(err) => out matches Err(e) && e@ == err,
            },
    {
        let ghost env0 = self.env();
        let ghost views = params_view(*params);
        let mut i: usize = 0;
        while i < params.len()
            invariant
                i <= params.len(),
                views == params_view(*params),
                env0 == old(self).env(),
                self.scopes@.len() == old(self).scopes@.len(),
                self.scopes@.len() > 0,
                self.cur_func_ret_ty == old(self).cur_func_ret_ty,
                same_outer_scopes(env0, self.env()),
                declare_params(env0, views, 0) == declare_params(self.env(), views, i as nat),
            decreases params.len() - i,
        {
            proof {
                assert(views[i as int] == params@[i as int]@);
            }
            let info = TyInfo { ty: params[i].ty.clone(), const_val: None, is_const: false };
            match self.declare(params[i].ident.name.as_str(), info) {
                Err(e) => {
                    return Err(e);
                },
                Ok(_) => {},
            }
            i += 1;
        }
        Ok(())
    }

    /// Checks a function: its parameters, its name, then its body in scopes
    /// of its own.
    pub fn visit_func(&mut self, ast_func: &mut AstFunc) -> (out: Result<(), SemanticError>)
        requires
            old(self).scopes@.len() > 0,
            parsed_func(old(ast_func)@),
        ensures
            out is Ok ==> final(self).scopes@.len() == old(self).scopes@.len(),
            out is Ok ==> same_outer_scopes(old(self).env(), final(self).env()),
            match check_func(old(self).env(), old(ast_func)@) {
                Ok((checked, env)) => out is Ok && final(ast_func)@ == checked && final(self).env()
                    == env && final(self).cur_func_ret_ty@ == ident_ty(
                    old(ast_func).ret_ty_ident.kind,
                ),
                Err(err) => out matches Err(e) && e@ == err,
            },
            func_refused(old(self).env(), old(ast_func)@) ==> out is Err && final(self).scopes@
                == old(self).scopes@,
    {
        reveal(check_func);
        let ghost env0 = self.env();
        let ret_ty = match self.visit_ty(&mut ast_func.ret_ty_ident) {
            Ok(ty) => ty,
            Err(e) => {
                return Err(e);
            },
        };
        self.cur_func_ret_ty = ret_ty.clone();
        proof {
            assert forall|i: int| 0 <= i < ast_func.params@.len() implies parsed_subs(
                (#[trigger] ast_func.params@[i])@.subs,
            ) by {
                assert(ast_func@.params[i] == ast_func.params@[i]@);
            }
        }
        match self.visit_func_params(&mut ast_func.params) {
            Err(e) => {
                return Err(e);
            },
            Ok(_) => {},
        }
        let tys = param_types(&ast_func.params);
        match self.declare(ast_func.ident.name.as_str(), func_info(ret_ty, tys)) {
            Err(e) => {
                return Err(e);
            },
            Ok(_) => {},
        }
        let ghost env1 = self.env();
        proof {
            lemma_env_push(self.scopes@);
        }
        self.scopes.push_scope();
        match self.declare_params(&ast_func.params) {
            Err(e) => {
                return Err(e);
            },
            Ok(_) => {},
        }
        match self.visit_block_stmt(&mut ast_func.body) {
            Err(e) => {
                return Err(e);
            },
            Ok(_) => {},
        }
        proof {
            lemma_env_drop_last(self.scopes@);
            assert(env1.push(Map::empty()).drop_last() =~= env1);
        }
        self.scopes.pop_scope();
        Ok(())
    }

    /// Checks the items of a program one after the other.
    pub fn visit_program_items(&mut self, items: &mut Vec<ProgramItem>) -> (out: Result<
        (),
        SemanticError,
    >)
        requires
            old(self).scopes@.len() > 0,
            parsed_program_items(program_items_view(*old(items))),
        ensures
            out is Ok ==> final(self).scopes@.len() == old(self).scopes@.len(),
            out is Ok ==> same_outer_scopes(old(self).env(), final(self).env()),
            match check_program_items(old(self).env(), program_items_view(*old(items)), 0) {
                Ok((checked, env)) => {
                    &&& out is Ok
                    &&& program_items_view(*final(items)) == checked
                    &&& final(self).env() == env
                    &&& final(self).cur_func_ret_ty@ == ret_ty_upto(
                        old(self).cur_func_ret_ty@,
                        program_items_view(*old(items)),
                        old(items)@.len() as nat,
                    )
                },
                Err(err) => out matches Err(e) && e@ == err,
            },
    {
        let ghost env0 = self.env();
        let ghost ret0 = self.cur_func_ret_ty@;
        let ghost old_items = *items;
        let ghost old_views = program_items_view(old_items);
        let ghost mut done: Seq<ProgramItemView> = Seq::empty();
        let mut i: usize = 0;
        while i < items.len()
            invariant
                i <= items.len(),
                items.len() == old_items.len(),
                old_items == *old(items),
                old_views == program_items_view(old_items),
                env0 == old(self).env(),
                ret0 == old(self).cur_func_ret_ty@,
                parsed_program_items(old_views),
                self.scopes@.len() == old(self).scopes@.len(),
                self.scopes@.len() > 0,
                same_outer_scopes(env0, self.env()),
                self.cur_func_ret_ty@ == ret_ty_upto(ret0, old_views, i as nat),
                done.len() == i,
                forall|j: int| 0 <= j < i ==> #[trigger] items@[j]@ == done[j],
                forall|j: int| i <= j < items.len() ==> items@[j] == old_items@[j],
                match check_program_items(self.env(), old_views, i as nat) {
                    Ok((rest, env)) => check_program_items(env0, old_views, 0) == Ok::<
                        (Seq<ProgramItemView>, Env),
                        ErrorView,
                    >((done + rest, env)),
                    Err(err) => check_program_items(env0, old_views, 0) == Err::<
                        (Seq<ProgramItemView>, Env),
                        ErrorView,
                    >(err),
                },
            decreases items.len() - i,
        {
            let ghost env_i = self.env();
            proof {
                assert(old_views[i as int] == old_items@[i as int]@);
                assert(parsed_program_item(old_views[i as int]));
            }
            let result = match &mut items[i] {
                ProgramItem::Decl(x) => self.visit_global_decl(x),
                ProgramItem::Func(x) => self.visit_func(x),
            };
            match result {
                Err(e) => {
                    return Err(e);
                },
                Ok(_) => {},
            }
            proof {
                let item = items@[i as int]@;
                let step = check_program_item(env_i, old_views[i as int]);
                assert(step == Ok::<(ProgramItemView, Env), ErrorView>((item, self.env())));
                match check_program_items(self.env(), old_views, (i + 1) as nat) {
                    Ok((rest, env)) => {
                        assert(done + (seq![item] + rest) =~= done.push(item) + rest);
                    },
                    Err(_) => {},
                }
                done = done.push(item);
                assert(same_outer_scopes(env0, self.env())) by {
                    assert(self.env().drop_last() == env_i.drop_last());
                }
            }
            i += 1;
        }
        proof {
            assert(done + Seq::<ProgramItemView>::empty() =~= done);
            assert(program_items_view(*items) =~= done);
        }
        Ok(())
    }

    /// Checks a program from its first item to its last, in a scope of its
    /// own that holds the runtime library.
    pub fn visit_program(&mut self, program: &mut Program) -> (out: Result<(), SemanticError>)
        requires
            parsed_program(old(program)@),
        ensures
            match check_program(old(self).env(), old(program)@) {
                Ok(checked) => {
                    &&& out is Ok
                    &&& final(program)@ == checked
                    &&& final(self).env() == old(self).env()
                    &&& final(self).cur_func_ret_ty@ == ret_ty_upto(
                        old(self).cur_func_ret_ty@,
                        old(program)@.program_items,
                        old(program)@.program_items.len(),
                    )
                },
                Err(err) => out matches Err(e) && e@ == err,
            },
    {
        let ghost env0 = self.env();
        proof {
            lemma_env_push(self.scopes@);
        }
        self.scopes.push_scope();
        self.push_built_in_funcs();
        match self.visit_program_items(&mut program.program_items) {
            Err(e) => {
                return Err(e);
            },
            Ok(_) => {},
        }
        proof {
            lemma_env_drop_last(self.scopes@);
            assert(env0.push(Map::empty()).drop_last() =~= env0);
        }
        self.scopes.pop_scope();
        Ok(())
    }
}

} // verus!
