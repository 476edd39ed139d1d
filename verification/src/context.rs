use vstd::pervasive::unreached;
use vstd::prelude::*;

use crate::ast::{AstTy, LiteralExpr};
use crate::ast_view::LiteralExprView;
use crate::ir::arena::{BBId, FuncId, GlobalId, InstId, ParamId};
use crate::ir::func::{IrFunc, position};
use crate::ir::inst::{Inst, InstKind, Operand};
use crate::ir::module::{Global, Module};
use crate::ir::ty::{FuncTy, IrTy};
use crate::scope::{
    lemma_map_drop_last, lemma_map_find, lemma_map_insert, lemma_map_push, scopes_can_insert,
    scopes_find, scopes_insert, scopes_map, ScopeBuilder,
};
use crate::type_checker::model::{Env, TyInfoView};

verus! {

/// What the builder knows of a declared name: the instruction, function,
/// global or parameter that it stands for.
#[derive(Debug, Clone, Copy, PartialEq, Eq, Structural)]
pub enum IdInfo {
    Inst(InstId),
    Func(FuncId),
    Global(GlobalId),
    Param(ParamId),
}

impl IdInfo {
    pub fn as_func(&self) -> (out: Option<&FuncId>)
        ensures
            match out {
                Some(id) => *self == IdInfo::Func(*id),
                None => !(self is Func),
            },
    {
        match self {
            IdInfo::Func(id) => Some(id),
            _ => None,
        }
    }
}

/// The operand that a name bound to `info` stands for: the instruction,
/// global or parameter itself.
pub open spec fn operand_of(info: IdInfo) -> Operand
    recommends
        !(info is Func),
{
    match info {
        IdInfo::Inst(x) => Operand::Inst(x),
        IdInfo::Global(x) => Operand::Global(x),
        IdInfo::Param(x) => Operand::Param(x),
        IdInfo::Func(_) => arbitrary(),
    }
}

impl Operand {
    /// The operand that a name stands for. A function is no operand.
    pub fn from_id(name_id: IdInfo) -> (out: Operand)
        requires
            !(name_id is Func),
        ensures
            out == operand_of(name_id),
    {
        match name_id {
            IdInfo::Inst(x) => Operand::Inst(x),
            IdInfo::Global(x) => Operand::Global(x),
            IdInfo::Param(x) => Operand::Param(x),
            IdInfo::Func(_) => unreached(),
        }
    }
}

/// What the builder works on: the scopes, the module, and the cursor: the
/// function and the block in it that take the next instruction.
pub struct Context {
    pub scope_builder: ScopeBuilder<IdInfo>,
    pub cur_module: Module,
    pub cur_func: FuncId,
    pub cur_bb: BBId,
}

impl Context {
    /// The cursor is in a function of the module.
    pub open spec fn in_func(&self) -> bool {
        self.cur_func.0 < self.cur_module.funcs@.len()
    }

    /// The function that the cursor is in.
    pub open spec fn func(&self) -> IrFunc
        recommends
            self.in_func(),
    {
        self.cur_module.funcs@[self.cur_func.0 as int]
    }

    /// Nothing but the function under the cursor differs between the two
    /// contexts.
    pub open spec fn same_but_func(&self, before: &Context) -> bool {
        &&& self.scope_builder == before.scope_builder
        &&& self.cur_func == before.cur_func
        &&& self.cur_bb == before.cur_bb
        &&& self.cur_module.globals == before.cur_module.globals
        &&& self.cur_module.funcs@.len() == before.cur_module.funcs@.len()
        &&& forall|i: int|
            0 <= i < self.cur_module.funcs@.len() && i != self.cur_func.0
                ==> #[trigger] self.cur_module.funcs@[i] == before.cur_module.funcs@[i]
    }

    pub fn new() -> (out: Context)
        ensures
            out.scope_builder@ == Seq::<Map<Seq<char>, IdInfo>>::empty(),
            out.cur_module.funcs@.len() == 0,
            out.cur_module.globals@.len() == 0,
            out.cur_func == FuncId(0),
            out.cur_bb == BBId(0),
    {
        Context {
            scope_builder: ScopeBuilder::new(),
            cur_module: Module::new(),
            cur_func: FuncId::default(),
            cur_bb: BBId::default(),
        }
    }

    pub fn get_cur_bb_id(&self) -> (out: BBId)
        ensures
            out == self.cur_bb,
    {
        self.cur_bb
    }

    /// The signature of a function of the module.
    pub fn get_func_ty(&self, func: FuncId) -> (out: &FuncTy)
        requires
            func.0 < self.cur_module.funcs@.len(),
        ensures
            *out == self.cur_module.funcs@[func.0 as int].ty,
    {
        self.cur_module.funcs[func.0].get_ty()
    }

    pub fn set_cur_bb(&mut self, bb: BBId)
        ensures
            final(self).cur_bb == bb,
            final(self).cur_func == old(self).cur_func,
            final(self).scope_builder == old(self).scope_builder,
            final(self).cur_module == old(self).cur_module,
    {
        self.cur_bb = bb;
    }

    pub fn set_cur_func(&mut self, func: FuncId)
        ensures
            final(self).cur_func == func,
            final(self).cur_bb == old(self).cur_bb,
            final(self).scope_builder == old(self).scope_builder,
            final(self).cur_module == old(self).cur_module,
    {
        self.cur_func = func;
    }

    /// Adds an instruction at the end of block `bb` of the function under
    /// the cursor.
    pub fn build_inst_end(&mut self, inst_kind: InstKind, ty: IrTy, bb: BBId) -> (out: InstId)
        requires
            old(self).in_func(),
            old(self).func().wf(),
            bb.0 < old(self).func().blocks@.len(),
        ensures
            final(self).same_but_func(old(self)),
            final(self).func().wf(),
            final(self).func().appended(old(self).func(), Inst { kind: inst_kind, ty }, bb, out),
    {
        let cur = self.cur_func.0;
        self.cur_module.funcs[cur].build_inst_at_end(inst_kind, ty, bb)
    }

    /// Adds an instruction at the end of the block under the cursor.
    pub fn build_inst_end_of_cur(&mut self, inst_kind: InstKind, ty: IrTy) -> (out: InstId)
        requires
            old(self).in_func(),
            old(self).func().wf(),
            old(self).cur_bb.0 < old(self).func().blocks@.len(),
        ensures
            final(self).same_but_func(old(self)),
            final(self).func().wf(),
            final(self).func().appended(
                old(self).func(),
                Inst { kind: inst_kind, ty },
                old(self).cur_bb,
                out,
            ),
    {
        let cur_bb = self.cur_bb;
        self.build_inst_end(inst_kind, ty, cur_bb)
    }

    /// Adds an empty block to the function under the cursor and lays it out
    /// right after the block under the cursor. The cursor stays.
    pub fn build_bb_after_cur(&mut self) -> (out: BBId)
        requires
            old(self).in_func(),
            old(self).func().wf(),
            old(self).cur_bb.0 < old(self).func().blocks@.len(),
        ensures
            final(self).same_but_func(old(self)),
            final(self).func().wf(),
            final(self).func().block_added(old(self).func(), out),
            final(self).func().order@ == old(self).func().order@.insert(
                position(old(self).func().order@, old(self).cur_bb) + 1,
                out,
            ),
    {
        let bb = self.cur_bb;
        let cur = self.cur_func.0;
        self.cur_module.funcs[cur].build_bb_after_cur(bb)
    }

    /// Adds an empty block at the end of the function under the cursor.
    pub fn build_bb(&mut self) -> (out: BBId)
        requires
            old(self).in_func(),
            old(self).func().wf(),
        ensures
            final(self).same_but_func(old(self)),
            final(self).func().wf(),
            final(self).func().block_added(old(self).func(), out),
            final(self).func().order@ == old(self).func().order@.push(out),
    {
        let cur = self.cur_func.0;
        self.cur_module.funcs[cur].build_bb()
    }

    /// Adds a function to the module.
    pub fn build_func(&mut self, func: IrFunc) -> (out: FuncId)
        ensures
            out == FuncId(old(self).cur_module.funcs@.len() as usize),
            final(self).cur_module.funcs@ == old(self).cur_module.funcs@.push(func),
            final(self).cur_module.globals == old(self).cur_module.globals,
            final(self).scope_builder == old(self).scope_builder,
            final(self).cur_func == old(self).cur_func,
            final(self).cur_bb == old(self).cur_bb,
    {
        self.cur_module.build_func(func)
    }

    /// Adds a global to the module.
    pub fn build_global(&mut self, global: Global) -> (out: GlobalId)
        ensures
            out == GlobalId(old(self).cur_module.globals@.len() as usize),
            final(self).cur_module.globals@ == old(self).cur_module.globals@.push(global),
            final(self).cur_module.funcs == old(self).cur_module.funcs,
            final(self).scope_builder == old(self).scope_builder,
            final(self).cur_func == old(self).cur_func,
            final(self).cur_bb == old(self).cur_bb,
    {
        self.cur_module.build_global(global)
    }

    /// Adds a parameter to the function under the cursor.
    pub fn build_func_param(&mut self, ty: IrTy) -> (out: ParamId)
        requires
            old(self).in_func(),
            old(self).func().wf(),
        ensures
            final(self).same_but_func(old(self)),
            final(self).func().wf(),
            out == ParamId(old(self).func().params@.len() as usize),
            final(self).func().params@.len() == old(self).func().params@.len() + 1,
            final(self).func().params@.last().ty@ == ty@,
            final(self).func().params@.drop_last() == old(self).func().params@,
            final(self).func().ty.params_ty@ == old(self).func().ty.params_ty@.push(ty),
            final(self).func().ty.ret_ty == old(self).func().ty.ret_ty,
            final(self).func().name == old(self).func().name,
            final(self).func().is_builtin == old(self).func().is_builtin,
            final(self).func().insts == old(self).func().insts,
            final(self).func().blocks == old(self).func().blocks,
            final(self).func().order == old(self).func().order,
    {
        let cur = self.cur_func.0;
        self.cur_module.funcs[cur].build_func_param(ty)
    }

    /// Lays block `after` of the function under the cursor out anew, right
    /// after block `cur`.
    pub fn set_bb_after(&mut self, after: BBId, cur: BBId)
        requires
            old(self).in_func(),
            old(self).func().wf(),
            after.0 < old(self).func().blocks@.len(),
            cur.0 < old(self).func().blocks@.len(),
            after != cur,
        ensures
            final(self).same_but_func(old(self)),
            final(self).func().wf(),
            final(self).func().order@ == {
                let without = old(self).func().order@.remove(
                    position(old(self).func().order@, after),
                );
                without.insert(position(without, cur) + 1, after)
            },
            final(self).func().blocks == old(self).func().blocks,
            final(self).func().insts == old(self).func().insts,
            final(self).func().params == old(self).func().params,
            final(self).func().ty == old(self).func().ty,
            final(self).func().name == old(self).func().name,
            final(self).func().is_builtin == old(self).func().is_builtin,
    {
        let cur_func = self.cur_func.0;
        self.cur_module.funcs[cur_func].set_bb_after_cur(after, cur);
    }
}

/// What the type checker knows of a declared name.
#[derive(Debug)]
pub struct TyInfo {
    pub ty: AstTy,
    pub const_val: Option<LiteralExpr>,
    pub is_const: bool,
}

pub open spec fn opt_literal_view(lit: Option<LiteralExpr>) -> Option<LiteralExprView> {
    match lit {
        Some(l) => Some(l@),
        None => None,
    }
}

impl TyInfo {
    pub open spec fn view(&self) -> TyInfoView {
        TyInfoView {
            ty: self.ty@,
            const_val: opt_literal_view(self.const_val),
            is_const: self.is_const,
        }
    }
}

impl Clone for TyInfo {
    fn clone(&self) -> (out: Self)
        ensures
            out@ == self@,
    {
        TyInfo {
            ty: self.ty.clone(),
            const_val: match &self.const_val {
                Some(lit) => Some(lit.clone()),
                None => None,
            },
            is_const: self.is_const,
        }
    }
}

/// The scopes of the type checker as the model sees them.
pub open spec fn env_view(scopes: Seq<Map<Seq<char>, TyInfo>>) -> Env {
    scopes_map(scopes, |info: TyInfo| info@)
}

pub proof fn lemma_env_push(scopes: Seq<Map<Seq<char>, TyInfo>>)
    ensures
        env_view(scopes.push(Map::empty())) == env_view(scopes).push(Map::empty()),
{
    lemma_map_push(scopes, |info: TyInfo| info@);
}

pub proof fn lemma_env_drop_last(scopes: Seq<Map<Seq<char>, TyInfo>>)
    requires
        scopes.len() > 0,
    ensures
        env_view(scopes.drop_last()) == env_view(scopes).drop_last(),
{
    lemma_map_drop_last(scopes, |info: TyInfo| info@);
}

/// A lookup in the model finds the view of what the lookup in the scopes
/// finds.
pub proof fn lemma_env_find(scopes: Seq<Map<Seq<char>, TyInfo>>, name: Seq<char>)
    ensures
        scopes_find(env_view(scopes), name) == match scopes_find(scopes, name) {
            Some(info) => Some(info@),
            None => None,
        },
{
    lemma_map_find(scopes, |info: TyInfo| info@, name);
}

pub proof fn lemma_env_insert(scopes: Seq<Map<Seq<char>, TyInfo>>, name: Seq<char>, info: TyInfo)
    requires
        scopes.len() > 0,
    ensures
        scopes_can_insert(env_view(scopes), name) == scopes_can_insert(scopes, name),
        env_view(scopes_insert(scopes, name, info)) == scopes_insert(env_view(scopes), name, info@),
{
    lemma_map_insert(scopes, |info: TyInfo| info@, name, info);
}

} // verus!
