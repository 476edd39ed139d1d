use vstd::pervasive::unreached;
use vstd::prelude::*;

use crate::ast::{AstFunc, Decl, FuncParam, InitVal, InitValKind, PrimitiveTy, Program, ProgramItem, SubDecl, TyIdentKind, TypeIdent};
use crate::ast_view::{
    InitValKindView, ProgramItemView, params_view, program_items_view, sub_decls_view,
};
use crate::context::IdInfo;
use crate::err::{ErrorView, SemanticError};
use crate::ir::arena::{BBId, GlobalId, InstId};
use crate::ir::constant::{Constant, literal_constant, literal_typed};
use crate::ir::func::FuncView;
use crate::ir::func::IrFunc;
use crate::ir::inst::{Alloca, InstKind, Operand, OperandView, RetInst, Store};
use crate::ir::inst::{Inst, InstView};
use crate::ir::module::Global;
use crate::ir::module::ModuleView;
use crate::ir::ty::{ir_tys_view, lemma_ir_tys_view, lower_ty, IrTy, IrTyView};
use crate::ir_builder::{lemma_lowered_as_state, rets_of, IrBuilder};
use crate::ir_builder::expr_code::zero_view;
use crate::ir_builder::invariants::{
    declare_kind, items_error, kind_of, kinds_after_decls, kinds_after_params,
    kinds_after_program_items, kinds_with_builtins, lemma_lowered_keeps, lowerable_func,
    lowerable_global, lowerable_globals, lowerable_program, lowerable_program_item,
    lowerable_program_items, program_error, Kind,
};
use crate::ir_builder::module_code::{
    Scopes, bound, builtin, entry_state, int_ptr_ir, lower_func, lower_global, lower_globals,
    lower_param, lower_params, lower_program, lower_program_item, lower_program_items, rets_in,
    with_func, with_runtime,
};
use crate::ir_builder::stmt_code::{alloca, ret, store, FuncState};
use crate::scope::lemma_map_push;
use crate::type_checker::model::ident_ty;

verus! {

impl IrBuilder {
    /// What holds of the scopes and the module between two items of a
    /// program, but for the state of the functions.
    pub open spec fn between_items(&self) -> bool {
        &&& self.ctx.scope_builder@.len() > 0
        &&& self.funcs_known()
        &&& self.loop_targets@.len() == 0
    }

    proof fn lemma_funcs_known_grows(before: &IrBuilder, after: &IrBuilder)
        requires
            before.funcs_known(),
            after.ctx.scope_builder@ == before.ctx.scope_builder@,
            after.ctx.cur_module.funcs@.len() >= before.ctx.cur_module.funcs@.len(),
        ensures
            after.funcs_known(),
    {
        assert forall|s: int, name: Seq<char>|
            0 <= s < after.ctx.scope_builder@.len() && (#[trigger] after.ctx.scope_builder@[s].contains_key(
                name,
            )) && after.ctx.scope_builder@[s][name] is Func implies after.ctx.scope_builder@[s][name]->Func_0.0
            < after.ctx.cur_module.funcs@.len() by {
            assert(before.ctx.scope_builder@[s].contains_key(name));
        }
    }

    proof fn lemma_funcs_known_pushed(before: &IrBuilder, after: &IrBuilder)
        requires
            before.funcs_known(),
            after.ctx.scope_builder@ == before.ctx.scope_builder@.push(Map::empty()),
            after.ctx.cur_module.funcs@.len() >= before.ctx.cur_module.funcs@.len(),
        ensures
            after.funcs_known(),
    {
        assert forall|s: int, name: Seq<char>|
            0 <= s < after.ctx.scope_builder@.len() && (#[trigger] after.ctx.scope_builder@[s].contains_key(
                name,
            )) && after.ctx.scope_builder@[s][name] is Func implies after.ctx.scope_builder@[s][name]->Func_0.0
            < after.ctx.cur_module.funcs@.len() by {
            if s < before.ctx.scope_builder@.len() {
                assert(before.ctx.scope_builder@[s].contains_key(name));
            }
        }
    }

    proof fn lemma_funcs_known_popped(before: &IrBuilder, after: &IrBuilder)
        requires
            before.funcs_known(),
            before.ctx.scope_builder@.len() > 0,
            after.ctx.scope_builder@ == before.ctx.scope_builder@.drop_last(),
            after.ctx.cur_module.funcs@.len() >= before.ctx.cur_module.funcs@.len(),
        ensures
            after.funcs_known(),
    {
        assert forall|s: int, name: Seq<char>|
            0 <= s < after.ctx.scope_builder@.len() && (#[trigger] after.ctx.scope_builder@[s].contains_key(
                name,
            )) && after.ctx.scope_builder@[s][name] is Func implies after.ctx.scope_builder@[s][name]->Func_0.0
            < after.ctx.cur_module.funcs@.len() by {
            assert(before.ctx.scope_builder@[s].contains_key(name));
        }
    }

    /// The type that a type name is lowered to.
    pub fn visit_ty(&mut self, ty_def: &TypeIdent) -> (out: Result<IrTy, SemanticError>)
        ensures
            *final(self) == *old(self),
            out matches Ok(ty) && ty@ == lower_ty(ident_ty(ty_def.kind)),
    {
        let ty = match &ty_def.kind {
            TyIdentKind::Primitive(prim_ty) => match prim_ty {
                PrimitiveTy::Integer => IrTy::Int(32),
            },
            TyIdentKind::Void => IrTy::Void,
        };
        Ok(ty)
    }

    /// Adds the declaration of a function of the runtime library to the
    /// module and binds its name.
    fn push_built_in(&mut self, name: &str, ret_ty: IrTy, params: Vec<IrTy>)
        requires
            old(self).between_items(),
            forall|i: int|
                0 <= i < old(self).ctx.cur_module.funcs@.len() ==> (
                #[trigger] old(self).ctx.cur_module.funcs@[i]).finished(),
            params@.len() <= 2,
        ensures
            final(self).between_items(),
            final(self).ctx.cur_module.globals == old(self).ctx.cur_module.globals,
            final(self).ctx.cur_module.funcs@.len() == old(self).ctx.cur_module.funcs@.len() + 1,
            forall|i: int|
                0 <= i < old(self).ctx.cur_module.funcs@.len() ==> #[trigger] final(self).ctx.cur_module.funcs@[i] == old(self).ctx.cur_module.funcs@[i],
            (final(self).ctx.cur_module@, final(self).ctx.scope_builder@) == with_func(
                old(self).ctx.cur_module@,
                old(self).ctx.scope_builder@,
                builtin(name@, ret_ty@, ir_tys_view(params)),
            ),
            final(self).ctx.cur_module.funcs@.last().finished(),
            final(self).ctx.scope_builder@.len() == old(self).ctx.scope_builder@.len(),
            final(self).ctx.scope_builder@.drop_last() == old(self).ctx.scope_builder@.drop_last(),
            final(self).kinds() == declare_kind(old(self).kinds(), name@, Kind::Func),
    {
        let ghost before = *self;
        let mut func = IrFunc::new(name, ret_ty, true);
        let ghost mut done: Seq<IrTyView> = Seq::empty();
        let mut i: usize = 0;
        proof {
            lemma_ir_tys_view(func.ty.params_ty);
            lemma_ir_tys_view(params);
            assert(ir_tys_view(func.ty.params_ty) =~= done);
        }
        while i < params.len()
            invariant
                i <= params.len(),
                func.wf(),
                func.name@ == name@,
                func.is_builtin,
                func.ty.ret_ty == ret_ty,
                func.insts@.len() == 0,
                func.blocks@.len() == 0,
                func.order@.len() == 0,
                func.params@.len() == i,
                forall|j: int| 0 <= j < i ==> (#[trigger] func.params@[j]).ty@ == done[j],
                done.len() == i,
                ir_tys_view(func.ty.params_ty) == done,
                forall|j: int| 0 <= j < i ==> done[j] == #[trigger] ir_tys_view(params)[j],
            decreases params.len() - i,
        {
            let ghost prev = func.ty.params_ty;
            let ghost prev_params = func.params@;
            func.build_func_param(params[i].clone());
            proof {
                assert forall|j: int| 0 <= j < i + 1 implies (#[trigger] func.params@[j]).ty@ == done.push(
                    params@[i as int]@,
                )[j] by {
                    if j < i {
                        assert(func.params@[j] == func.params@.drop_last()[j]);
                        assert(func.params@.drop_last()[j] == prev_params[j]);
                    } else {
                        assert(func.params@[j] == func.params@.last());
                    }
                }
                lemma_ir_tys_view(prev);
                lemma_ir_tys_view(func.ty.params_ty);
                lemma_ir_tys_view(params);
                done = done.push(params@[i as int]@);
                assert(ir_tys_view(func.ty.params_ty) =~= done);
            }
            i += 1;
        }
        proof {
            lemma_ir_tys_view(params);
            assert(done =~= ir_tys_view(params));
            assert(func.finished());
            lemma_ir_tys_view(func.ty.params_ty);
            assert(func@.params =~= ir_tys_view(params)) by {
                assert forall|j: int| 0 <= j < func@.params.len() implies func@.params[j]
                    == ir_tys_view(params)[j] by {
                    assert(func.params@[j].ty@ == done[j]);
                }
            }
            assert(func@.insts =~= Seq::<InstView>::empty());
            assert(func@.blocks =~= Seq::<Seq<InstId>>::empty());
            assert(func@.order =~= Seq::<BBId>::empty());
            assert(func@ == builtin(name@, ret_ty@, ir_tys_view(params)));
        }
        let ghost func_view = func@;
        let func_id = self.ctx.build_func(func);
        proof {
            Self::lemma_funcs_known_grows(&before, self);
            assert(before.ctx.cur_module.funcs.len() == before.ctx.cur_module.funcs@.len());
            assert(self.ctx.cur_module@.funcs =~= before.ctx.cur_module@.funcs.push(func_view));
            assert(self.ctx.cur_module@.globals =~= before.ctx.cur_module@.globals);
        }
        let ghost built = self.ctx.cur_module@;
        self.bind(name, IdInfo::Func(func_id));
        proof {
            assert(self.ctx.cur_module@ == built);
        }
    }

    /// Declares the six functions of the runtime library: `getint() ->
    /// int`, `getch() -> int`, `getarray(ptr<int>) -> int`, `putint(int)`,
    /// `putch(int)`, `putarray(int, ptr<int>) -> int`.
    pub fn push_built_in_funcs(&mut self)
        requires
            old(self).between_items(),
            forall|i: int|
                0 <= i < old(self).ctx.cur_module.funcs@.len() ==> (
                #[trigger] old(self).ctx.cur_module.funcs@[i]).finished(),
        ensures
            final(self).between_items(),
            final(self).ctx.cur_module.globals == old(self).ctx.cur_module.globals,
            final(self).ctx.scope_builder@.len() == old(self).ctx.scope_builder@.len(),
            final(self).ctx.scope_builder@.drop_last() == old(self).ctx.scope_builder@.drop_last(),
            final(self).kinds() == kinds_with_builtins(old(self).kinds()),
            forall|i: int|
                0 <= i < final(self).ctx.cur_module.funcs@.len() ==> (
                #[trigger] final(self).ctx.cur_module.funcs@[i]).finished(),
            final(self).ctx.cur_module.funcs@.len() == old(self).ctx.cur_module.funcs@.len() + 6,
            (final(self).ctx.cur_module@, final(self).ctx.scope_builder@) == with_runtime(
                old(self).ctx.cur_module@,
                old(self).ctx.scope_builder@,
            ),
    {
        let ghost n = self.ctx.cur_module.funcs@.len() as int;
        let params: Vec<IrTy> = Vec::new();
        proof {
            lemma_ir_tys_view(params);
            assert(ir_tys_view(params) =~= seq![]);
        }
        self.push_built_in("getint", IrTy::Int(32), params);

        let params: Vec<IrTy> = Vec::new();
        proof {
            lemma_ir_tys_view(params);
            assert(ir_tys_view(params) =~= seq![]);
        }
        self.push_built_in("getch", IrTy::Int(32), params);

        let mut params: Vec<IrTy> = Vec::new();
        params.push(IrTy::Ptr(Box::new(IrTy::Int(32))));
        proof {
            reveal_with_fuel(IrTy::view, 2);
            lemma_ir_tys_view(params);
            assert(ir_tys_view(params) =~= seq![int_ptr_ir()]);
        }
        self.push_built_in("getarray", IrTy::Int(32), params);

        let mut params: Vec<IrTy> = Vec::new();
        params.push(IrTy::Int(32));
        proof {
            lemma_ir_tys_view(params);
            assert(ir_tys_view(params) =~= seq![IrTyView::Int(32)]);
        }
        self.push_built_in("putint", IrTy::Void, params);

        let mut params: Vec<IrTy> = Vec::new();
        params.push(IrTy::Int(32));
        proof {
            lemma_ir_tys_view(params);
            assert(ir_tys_view(params) =~= seq![IrTyView::Int(32)]);
        }
        self.push_built_in("putch", IrTy::Void, params);

        let mut params: Vec<IrTy> = Vec::new();
        params.push(IrTy::Int(32));
        params.push(IrTy::Ptr(Box::new(IrTy::Int(32))));
        proof {
            reveal_with_fuel(IrTy::view, 2);
            lemma_ir_tys_view(params);
            assert(ir_tys_view(params) =~= seq![IrTyView::Int(32), int_ptr_ir()]);
        }
        self.push_built_in("putarray", IrTy::Int(32), params);
    }

    /// The constant that the folded initializer of a global stands for.
    pub fn visit_const_init_val(&mut self, init_val: &InitVal) -> (out: Result<
        Constant,
        SemanticError,
    >)
        requires
            init_val@.kind matches InitValKindView::Const(lit) && literal_typed(lit),
        ensures
            *final(self) == *old(self),
            out matches Ok(c) && c@ == literal_constant(init_val@.kind->Const_0),
    {
        match &init_val.kind {
            InitValKind::Const(literal) => Ok(Constant::from_literal(literal)),
            _ => unreached(),
        }
    }

    /// Lowers one declared name of a global declaration to a global of the
    /// module.
    pub fn visit_global(&mut self, sub_decl: &SubDecl) -> (out: Result<(), SemanticError>)
        requires
            old(self).between_items(),
            lowerable_global(sub_decl@),
        ensures
            out is Ok,
            final(self).between_items(),
            final(self).ctx.cur_module.funcs == old(self).ctx.cur_module.funcs,
            final(self).ctx.cur_module.globals@.len() == old(self).ctx.cur_module.globals@.len() + 1,
            final(self).ctx.cur_module.globals@.drop_last() == old(self).ctx.cur_module.globals@,
            final(self).ctx.cur_module.globals@.last()@ == lower_global(sub_decl@),
            final(self).ctx.cur_module@ == (ModuleView {
                funcs: old(self).ctx.cur_module@.funcs,
                globals: old(self).ctx.cur_module@.globals.push(lower_global(sub_decl@)),
            }),
            final(self).ctx.scope_builder@ == bound(
                old(self).ctx.scope_builder@,
                sub_decl@.ident.name,
                IdInfo::Global(
                    GlobalId(old(self).ctx.cur_module@.globals.len() as usize),
                ),
            ),
            final(self).ctx.scope_builder@.len() == old(self).ctx.scope_builder@.len(),
            final(self).ctx.scope_builder@.drop_last() == old(self).ctx.scope_builder@.drop_last(),
            final(self).kinds() == declare_kind(old(self).kinds(), sub_decl@.ident.name, Kind::Var),
    {
        let ty = IrTy::from_ast(&sub_decl.ty);
        let ptr_ty = IrTy::ptr_of(&ty);
        let const_init_val = if let Some(init_val) = &sub_decl.init_val {
            match self.visit_const_init_val(init_val) {
                Ok(c) => c,
                Err(e) => {
                    return Err(e);
                },
            }
        } else {
            Constant::build_zero(&ty)
        };
        let global = Global::new(ptr_ty, sub_decl.ident.name.as_str(), const_init_val);
        let ghost before = *self;
        let global_id = self.ctx.build_global(global);
        proof {
            Self::lemma_funcs_known_grows(&before, self);
            assert(self.ctx.cur_module.globals@.drop_last() =~= old(self).ctx.cur_module.globals@);
            assert(before.ctx.cur_module.globals.len() == before.ctx.cur_module.globals@.len());
            assert(self.ctx.cur_module@.globals =~= before.ctx.cur_module@.globals.push(
                lower_global(sub_decl@),
            ));
            assert(self.ctx.cur_module@.funcs =~= before.ctx.cur_module@.funcs);
        }
        let ghost built = self.ctx.cur_module@;
        self.bind(sub_decl.ident.name.as_str(), IdInfo::Global(global_id));
        proof {
            assert(self.ctx.cur_module@ == built);
        }
        Ok(())
    }

    /// Lowers a global declaration, one name after the other.
    pub fn visit_global_decl(&mut self, decl: &Decl) -> (out: Result<(), SemanticError>)
        requires
            old(self).between_items(),
            lowerable_globals(decl@),
        ensures
            out is Ok,
            final(self).between_items(),
            final(self).ctx.cur_module.funcs == old(self).ctx.cur_module.funcs,
            final(self).ctx.scope_builder@.len() == old(self).ctx.scope_builder@.len(),
            final(self).ctx.scope_builder@.drop_last() == old(self).ctx.scope_builder@.drop_last(),
            final(self).kinds() == kinds_after_decls(old(self).kinds(), decl@.sub_decls, 0),
            (final(self).ctx.cur_module@, final(self).ctx.scope_builder@) == lower_globals(
                old(self).ctx.cur_module@,
                old(self).ctx.scope_builder@,
                decl@.sub_decls,
                0,
            ),
    {
        let ghost before = *self;
        let ghost views = decl@.sub_decls;
        let ghost n = self.ctx.cur_module.globals@.len() as int;
        let mut i: usize = 0;
        while i < decl.sub_decls.len()
            invariant
                i <= decl.sub_decls.len(),
                views == sub_decls_view(decl.sub_decls),
                views == decl@.sub_decls,
                lowerable_globals(decl@),
                n == before.ctx.cur_module.globals@.len(),
                self.between_items(),
                self.ctx.cur_module.funcs == before.ctx.cur_module.funcs,
                self.ctx.scope_builder@.len() == before.ctx.scope_builder@.len(),
                self.ctx.scope_builder@.drop_last() == before.ctx.scope_builder@.drop_last(),
                kinds_after_decls(before.kinds(), views, 0) == kinds_after_decls(
                    self.kinds(),
                    views,
                    i as nat,
                ),
                self.ctx.cur_module.globals@.len() == n + i,
                lower_globals(before.ctx.cur_module@, before.ctx.scope_builder@, views, 0)
                    == lower_globals(
                    self.ctx.cur_module@,
                    self.ctx.scope_builder@,
                    views,
                    i as nat,
                ),
            decreases decl.sub_decls.len() - i,
        {
            let ghost prev = *self;
            proof {
                assert(views[i as int] == decl.sub_decls@[i as int]@);
            }
            match self.visit_global(&decl.sub_decls[i]) {
                Ok(_) => {},
                Err(e) => {
                    return Err(e);
                },
            }
            i += 1;
        }
        Ok(())
    }

    /// Lowers a parameter: a pointer is bound as it is; any other value
    /// gets memory on the stack and is stored there, and the name is bound
    /// to that address.
    pub fn visit_func_param(&mut self, param: &FuncParam) -> (out: Result<(), SemanticError>)
        requires
            old(self).inv(),
            param@.ty.known(),
        ensures
            out is Ok,
            final(self).inv(),
            final(self).same_outside(old(self)),
            final(self).ctx.cur_bb == old(self).ctx.cur_bb,
            final(self).ctx.func().blocks@.len() == old(self).ctx.func().blocks@.len(),
            final(self).ctx.func().name == old(self).ctx.func().name,
            final(self).ctx.func().is_builtin == old(self).ctx.func().is_builtin,
            final(self).ctx.func().ty.ret_ty == old(self).ctx.func().ty.ret_ty,
            final(self).ctx.func().params@.len() == old(self).ctx.func().params@.len() + 1,
            final(self).ctx.func().params@.last().ty@ == lower_ty(param@.ty),
            final(self).ctx.scope_builder@.len() == old(self).ctx.scope_builder@.len(),
            final(self).ctx.scope_builder@.drop_last() == old(self).ctx.scope_builder@.drop_last(),
            final(self).kinds() == declare_kind(old(self).kinds(), param@.ident.name, Kind::Var),
            param@.ty is Ptr ==> final(self).ctx.func().insts == old(self).ctx.func().insts,
            final(self).rets() == old(self).rets(),
            final(self).state() == lower_param(old(self).state(), param@),
    {
        let ty = IrTy::from_ast(&param.ty);
        let ghost before = *self;
        let param_id = self.ctx.build_func_param(ty.clone());
        let ghost added = *self;
        proof {
            assert(before.ctx.func().params.len() == before.ctx.func().params@.len());
            assert(rets_of(self.ctx.cur_module.funcs@) =~= rets_of(before.ctx.cur_module.funcs@));
            let model = FuncState { params: before.state().params.push(ty@), ..before.state() };
            assert(self.state().params =~= model.params) by {
                assert forall|j: int| 0 <= j < model.params.len() implies self.state().params[j]
                    == model.params[j] by {
                    if j < before.ctx.func().params@.len() {
                        assert(self.ctx.func().params@[j] == self.ctx.func().params@.drop_last()[j]);
                    } else {
                        assert(self.ctx.func().params@[j] == self.ctx.func().params@.last());
                    }
                }
            }
            assert(self.state() == model);
        }
        proof {
            Self::lemma_funcs_known_grows(&before, self);
            assert(self.ctx.func().open_block(self.ctx.cur_bb.0 as int)) by {
                assert forall|k: int|
                    0 <= k < self.ctx.func().blocks@[self.ctx.cur_bb.0 as int].insts@.len() implies !(
                #[trigger] self.ctx.func().kind_at(self.ctx.cur_bb.0 as int, k)).is_terminator() by {
                    assert(self.ctx.func().kind_at(self.ctx.cur_bb.0 as int, k)
                        == before.ctx.func().kind_at(before.ctx.cur_bb.0 as int, k));
                }
            }
        }
        if let IrTy::Ptr(_) = ty {
            self.bind(param.ident.name.as_str(), IdInfo::Param(param_id));
        } else {
            proof {
                if ty is Func {
                    assert(ty->Func_0@ is Func);
                }
                assert(!(param@.ty is Ptr));
            }
            proof {
                assert(self.inv());
            }
            let alloca_inst = Alloca { alloca_ty: ty.clone() };
            let alloca_addr = self.emit(InstKind::Alloca(alloca_inst), IrTy::ptr_of(&ty));
            proof {
                lemma_lowered_as_state(&added, self, seq![alloca(ty@)]);
                assert(added.ctx.func().insts.len() == added.ctx.func().insts@.len());
                assert(added.state().insts.len() == added.ctx.func().insts@.len());
            }
            self.bind(param.ident.name.as_str(), IdInfo::Inst(alloca_addr));
            let ghost bound_state = *self;
            let store_inst = Store { addr: Operand::Inst(alloca_addr), data: Operand::Param(param_id) };
            self.emit(InstKind::Store(store_inst), IrTy::Void);
            proof {
                lemma_lowered_as_state(
                    &bound_state,
                    self,
                    seq![
                        store(
                            OperandView::Inst(alloca_addr),
                            OperandView::Param(param_id),
                        ),
                    ],
                );
            }
        }
        Ok(())
    }

    /// Lowers a function. Its skeleton is added to the module and its name
    /// is bound before the body is lowered, so the body may call it. The
    /// body starts in a first block; where it ends a return is added: of
    /// nothing for a function that returns nothing, else of zero.
    pub fn visit_func(&mut self, ast_func: &AstFunc) -> (out: Result<(), SemanticError>)
        requires
            old(self).module_inv(),
            lowerable_func(old(self).kinds(), ast_func@),
        ensures
            match items_error(0, ast_func@.body.block_items, 0) {
                Some(err) => out matches Err(e) && e@ == err,
                None => {
                    let funcs = final(self).ctx.cur_module.funcs@;
                    &&& out is Ok
                    &&& final(self).module_inv()
                    &&& final(self).ctx.cur_module.globals == old(self).ctx.cur_module.globals
                    &&& funcs.len() == old(self).ctx.cur_module.funcs@.len() + 1
                    &&& forall|i: int|
                        0 <= i < old(self).ctx.cur_module.funcs@.len() ==> #[trigger] funcs[i] == old(self).ctx.cur_module.funcs@[i]
                    &&& funcs.last().name@ == ast_func@.ident.name
                    &&& !funcs.last().is_builtin
                    &&& funcs.last().ty.ret_ty@ == lower_ty(ident_ty(ast_func@.ret_ty_ident.kind))
                    &&& funcs.last().params@.len() == ast_func@.params.len()
                    &&& funcs.last().blocks@.len() > 0
                    &&& final(self).ctx.scope_builder@.len() == old(self).ctx.scope_builder@.len()
                    &&& final(self).ctx.scope_builder@.drop_last() == old(self).ctx.scope_builder@.drop_last()
                    &&& final(self).kinds() == declare_kind(
                        old(self).kinds(),
                        ast_func@.ident.name,
                        Kind::Func,
                    )
                    &&& lower_program_item(
                        old(self).ctx.cur_module@,
                        old(self).ctx.scope_builder@,
                        ProgramItemView::Func(ast_func@),
                    ) == Ok::<(ModuleView, Scopes), ErrorView>(
                        (final(self).ctx.cur_module@, final(self).ctx.scope_builder@),
                    )
                },
            },
    {
        let ghost before = *self;
        let ret_ty = match self.visit_ty(&ast_func.ret_ty_ident) {
            Ok(ty) => ty,
            Err(e) => {
                return Err(e);
            },
        };
        let func = IrFunc::new(ast_func.ident.name.as_str(), ret_ty.clone(), false);
        let func_id = self.ctx.build_func(func);
        proof {
            Self::lemma_funcs_known_grows(&before, self);
        }
        self.bind(ast_func.ident.name.as_str(), IdInfo::Func(func_id));
        self.ctx.set_cur_func(func_id);
        let ghost declared = *self;
        proof {
            lemma_map_push(self.ctx.scope_builder@, |info: IdInfo| kind_of(info));
        }
        self.ctx.scope_builder.push_scope();
        proof {
            Self::lemma_funcs_known_pushed(&declared, self);
            assert(before.ctx.cur_module.funcs.len() == before.ctx.cur_module.funcs@.len());
        }

        // build bb
        let init_bb_id = self.ctx.build_bb();
        self.ctx.set_cur_bb(init_bb_id);
        proof {
            Self::lemma_funcs_known_grows(&declared, &declared);
            assert(self.ctx.func().blocks@.len() == 1);
            assert(self.ctx.func().blocks@.last() == self.ctx.func().blocks@[0]);
            assert(self.funcs_known()) by {
                assert forall|s: int, name: Seq<char>|
                    0 <= s < self.ctx.scope_builder@.len() && (
                    #[trigger] self.ctx.scope_builder@[s].contains_key(name))
                        && self.ctx.scope_builder@[s][name] is Func implies self.ctx.scope_builder@[s][name]->Func_0.0
                    < self.ctx.cur_module.funcs@.len() by {
                    if s < declared.ctx.scope_builder@.len() {
                        assert(declared.ctx.scope_builder@[s].contains_key(name));
                    }
                }
            }
            assert(self.inv());
        }
        let ghost entered = *self;
        let ghost rets = self.rets();
        proof {
            assert(rets =~= rets_in(before.ctx.cur_module@).push(ret_ty@));
            let entry = entry_state(declared.ctx.scope_builder@);
            assert(self.state().insts =~= entry.insts);
            assert(self.state().blocks[0] =~= Seq::<InstId>::empty());
            assert(self.state().blocks =~= entry.blocks);
            assert(self.state().order =~= entry.order);
            assert(self.state().params =~= entry.params);
            assert(self.state().targets =~= entry.targets);
            assert(self.state() == entry);
        }

        // visit params
        let ghost params = ast_func@.params;
        let mut i: usize = 0;
        while i < ast_func.params.len()
            invariant
                i <= ast_func.params.len(),
                params == params_view(ast_func.params),
                params == ast_func@.params,
                forall|j: int| 0 <= j < params.len() ==> (#[trigger] params[j]).ty.known(),
                self.inv(),
                self.same_outside(&entered),
                self.ctx.cur_bb == entered.ctx.cur_bb,
                self.ctx.func().blocks@.len() == 1,
                self.ctx.func().name == entered.ctx.func().name,
                self.ctx.func().is_builtin == entered.ctx.func().is_builtin,
                self.ctx.func().ty.ret_ty == entered.ctx.func().ty.ret_ty,
                self.ctx.func().params@.len() == i,
                self.ctx.scope_builder@.len() == entered.ctx.scope_builder@.len(),
                self.ctx.scope_builder@.drop_last() == entered.ctx.scope_builder@.drop_last(),
                kinds_after_params(entered.kinds(), params, 0) == kinds_after_params(
                    self.kinds(),
                    params,
                    i as nat,
                ),
                self.rets() == rets,
                lower_params(entered.state(), params, 0) == lower_params(
                    self.state(),
                    params,
                    i as nat,
                ),
            decreases ast_func.params.len() - i,
        {
            proof {
                assert(params[i as int] == ast_func.params@[i as int]@);
            }
            match self.visit_func_param(&ast_func.params[i]) {
                Ok(_) => {},
                Err(e) => {
                    return Err(e);
                },
            }
            i += 1;
        }
        let ghost bound = *self;
        match self.visit_block_stmt(&ast_func.body) {
            Ok(_) => {},
            Err(e) => {
                return Err(e);
            },
        }
        let ghost lowered = *self;

        // add default return inst
        let ret_inst = match &ret_ty {
            IrTy::Void => RetInst { val: None },
            IrTy::Int(_) => RetInst { val: Some(Operand::from_i32(0)) },
            _ => {
                proof {
                    if ret_ty is Func {
                        assert(ret_ty->Func_0@ is Func);
                    }
                }
                unreached()
            },
        };
        let cur = self.ctx.get_cur_bb_id();
        let ghost ret_view = (Inst { kind: InstKind::RetInst(ret_inst), ty: IrTy::Void })@;
        proof {
            assert(ret_view == ret(
                if ret_ty@ is Void {
                    None
                } else {
                    Some(zero_view())
                },
            ));
        }
        self.terminate(InstKind::RetInst(ret_inst), cur);
        let ghost returned = *self;
        proof {
            lemma_lowered_keeps(bound.ctx.func(), lowered.ctx.func(), bound.ctx.cur_bb, lowered.ctx.cur_bb);
            assert forall|b: int| 0 <= b < self.ctx.func().blocks@.len() implies #[trigger] self.ctx.func().closed_block(
                b,
            ) by {
                if b != cur.0 {
                    assert(lowered.ctx.func().closed_block(b));
                }
            }
            assert(self.ctx.func().finished());
        }
        self.ctx.scope_builder.pop_scope();
        proof {
            Self::lemma_funcs_known_popped(&returned, self);
            assert(self.ctx.scope_builder@ =~= declared.ctx.scope_builder@);
            assert forall|i: int| 0 <= i < self.ctx.cur_module.funcs@.len() implies (
            #[trigger] self.ctx.cur_module.funcs@[i]).finished() by {
                if i != func_id.0 {
                    assert(self.ctx.cur_module.funcs@[i] == before.ctx.cur_module.funcs@[i]);
                }
            }
            assert(self.ctx.cur_module.funcs@.last() == self.ctx.func());
            let done = returned.state();
            let model = FuncView {
                name: ast_func@.ident.name,
                is_builtin: false,
                ret_ty: ret_ty@,
                params: done.params,
                insts: done.insts,
                blocks: done.blocks,
                order: done.order,
            };
            assert(self.ctx.func()@.params =~= done.params);
            assert(self.ctx.func()@.blocks =~= done.blocks);
            assert(self.ctx.func()@ == model);
            assert(lower_func(rets, declared.ctx.scope_builder@, ast_func@) == Ok::<
                FuncView,
                ErrorView,
            >(model));
            assert(self.ctx.cur_module@.funcs =~= before.ctx.cur_module@.funcs.push(model)) by {
                assert forall|i: int| 0 <= i < before.ctx.cur_module.funcs@.len() implies self.ctx.cur_module.funcs@[i]
                    == before.ctx.cur_module.funcs@[i] by {}
            }
            assert(self.ctx.cur_module@.globals =~= before.ctx.cur_module@.globals);
        }
        Ok(())
    }

    /// Lowers the items of a program one after the other.
    pub fn visit_program_items(&mut self, items: &Vec<ProgramItem>) -> (out: Result<
        (),
        SemanticError,
    >)
        requires
            old(self).module_inv(),
            lowerable_program_items(old(self).kinds(), program_items_view(*items), 0),
        ensures
            match program_error(program_items_view(*items), 0) {
                Some(err) => out matches Err(e) && e@ == err,
                None => {
                    &&& out is Ok
                    &&& final(self).module_inv()
                    &&& final(self).ctx.scope_builder@.len() == old(self).ctx.scope_builder@.len()
                    &&& final(self).ctx.scope_builder@.drop_last() == old(self).ctx.scope_builder@.drop_last()
                    &&& final(self).kinds() == kinds_after_program_items(
                        old(self).kinds(),
                        program_items_view(*items),
                        0,
                    )
                    &&& final(self).ctx.cur_module.funcs@.len() >= old(self).ctx.cur_module.funcs@.len()
                    &&& forall|i: int|
                        0 <= i < old(self).ctx.cur_module.funcs@.len() ==> #[trigger] final(
                            self
                        ).ctx.cur_module.funcs@[i] == old(self).ctx.cur_module.funcs@[i]
                    &&& lower_program_items(
                        old(self).ctx.cur_module@,
                        old(self).ctx.scope_builder@,
                        program_items_view(*items),
                        0,
                    ) == Ok::<(ModuleView, Scopes), ErrorView>(
                        (final(self).ctx.cur_module@, final(self).ctx.scope_builder@),
                    )
                },
            },
    {
        let ghost before = *self;
        let ghost views = program_items_view(*items);
        let mut i: usize = 0;
        while i < items.len()
            invariant
                i <= items.len(),
                views == program_items_view(*items),
                before == *old(self),
                self.module_inv(),
                self.ctx.scope_builder@.len() == before.ctx.scope_builder@.len(),
                self.ctx.scope_builder@.drop_last() == before.ctx.scope_builder@.drop_last(),
                lowerable_program_items(self.kinds(), views, i as nat),
                kinds_after_program_items(before.kinds(), views, 0) == kinds_after_program_items(
                    self.kinds(),
                    views,
                    i as nat,
                ),
                program_error(views, 0) == program_error(views, i as nat),
                self.ctx.cur_module.funcs@.len() >= before.ctx.cur_module.funcs@.len(),
                forall|j: int|
                    0 <= j < before.ctx.cur_module.funcs@.len() ==> #[trigger] self.ctx.cur_module.funcs@[j]
                        == before.ctx.cur_module.funcs@[j],
                lower_program_items(
                    before.ctx.cur_module@,
                    before.ctx.scope_builder@,
                    views,
                    0,
                ) == lower_program_items(
                    self.ctx.cur_module@,
                    self.ctx.scope_builder@,
                    views,
                    i as nat,
                ),
            decreases items.len() - i,
        {
            proof {
                assert(views[i as int] == items@[i as int]@);
                assert(lowerable_program_item(self.kinds(), views[i as int]));
            }
            match &items[i] {
                ProgramItem::Decl(x) => {
                    match self.visit_global_decl(x) {
                        Ok(_) => {},
                        Err(e) => {
                            return Err(e);
                        },
                    }
                },
                ProgramItem::Func(x) => {
                    match self.visit_func(x) {
                        Ok(_) => {},
                        Err(e) => {
                            return Err(e);
                        },
                    }
                },
            }
            i += 1;
        }
        Ok(())
    }

    /// Lowers a program in a scope of its own that holds the runtime
    /// library.
    pub fn visit_program(&mut self, program: &Program) -> (out: Result<(), SemanticError>)
        requires
            forall|i: int|
                0 <= i < old(self).ctx.cur_module.funcs@.len() ==> (
                #[trigger] old(self).ctx.cur_module.funcs@[i]).finished(),
            old(self).loop_targets@.len() == 0,
            old(self).funcs_known(),
            lowerable_program(old(self).kinds(), program@),
        ensures
            match program_error(program@.program_items, 0) {
                Some(err) => out matches Err(e) && e@ == err,
                None => {
                    let funcs = final(self).ctx.cur_module.funcs@;
                    &&& out is Ok
                    &&& final(self).ctx.scope_builder@ == old(self).ctx.scope_builder@
                    &&& forall|i: int| 0 <= i < funcs.len() ==> (#[trigger] funcs[i]).finished()
                    &&& lower_program(
                        old(self).ctx.cur_module@,
                        old(self).ctx.scope_builder@,
                        program@,
                    ) == Ok::<ModuleView, ErrorView>(final(self).ctx.cur_module@)
                },
            },
    {
        let ghost before = *self;
        proof {
            lemma_map_push(self.ctx.scope_builder@, |info: IdInfo| kind_of(info));
        }
        self.ctx.scope_builder.push_scope();
        proof {
            Self::lemma_funcs_known_pushed(&before, self);
        }
        let ghost opened = *self;
        self.push_built_in_funcs();
        let ghost declared = *self;
        proof {
            assert(opened.ctx.cur_module@ == before.ctx.cur_module@);
            assert((declared.ctx.cur_module@, declared.ctx.scope_builder@) == with_runtime(
                before.ctx.cur_module@,
                before.ctx.scope_builder@.push(Map::empty()),
            ));
            assert(program@.program_items == program_items_view(program.program_items));
        }
        match self.visit_program_items(&program.program_items) {
            Ok(_) => {},
            Err(e) => {
                return Err(e);
            },
        }
        let ghost lowered = *self;
        self.ctx.scope_builder.pop_scope();
        proof {
            Self::lemma_funcs_known_popped(&lowered, self);
            assert(before.ctx.scope_builder@.push(Map::empty()).drop_last() =~= before.ctx.scope_builder@);
            assert(self.ctx.cur_module@ == lowered.ctx.cur_module@);
        }
        Ok(())
    }
}

} // verus!
