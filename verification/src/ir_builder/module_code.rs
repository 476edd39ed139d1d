//! The module that a program is lowered to, as a function of the program.

use vstd::prelude::*;

use crate::ast_view::{
    AstFuncView, FuncParamView, InitValKindView, ProgramItemView, ProgramView, SubDeclView,
};
use crate::ast_view::TyView;
use crate::context::IdInfo;
use crate::err::ErrorView;
use crate::ir::arena::{BBId, FuncId, GlobalId, InstId, ParamId};
use crate::ir::constant::{literal_constant, zero_constant};
use crate::ir::func::FuncView;
use crate::ir::inst::OperandView;
use crate::ir::module::{GlobalView, ModuleView};
use crate::ir::ty::{lower_ty, IrTyView};
use crate::ir_builder::expr_code::{ptr_view, zero_view};
use crate::ir_builder::stmt_code::{alloca, lower_block, ret, store, FuncState};
use crate::scope::{scopes_can_insert, scopes_insert};
use crate::type_checker::model::{declare_library, ident_ty, runtime_library, with_builtins, Env};

verus! {

/// The scopes of the builder.
pub type Scopes = Seq<Map<Seq<char>, IdInfo>>;

/// The scopes with `name` bound in the innermost one, unless that scope
/// holds the name already.
pub open spec fn bound(scopes: Scopes, name: Seq<char>, info: IdInfo) -> Scopes {
    if scopes_can_insert(scopes, name) {
        scopes_insert(scopes, name, info)
    } else {
        scopes
    }
}

/// What each function of the module returns.
pub open spec fn rets_in(m: ModuleView) -> Seq<IrTyView> {
    Seq::new(m.funcs.len(), |i: int| m.funcs[i].ret_ty)
}

/// The declaration of a function of the runtime library.
pub open spec fn builtin(name: Seq<char>, ret_ty: IrTyView, params: Seq<IrTyView>) -> FuncView {
    FuncView {
        name,
        is_builtin: true,
        ret_ty,
        params,
        insts: Seq::empty(),
        blocks: Seq::empty(),
        order: Seq::empty(),
    }
}

/// The module and the scopes with a function added and its name bound.
pub open spec fn with_func(m: ModuleView, scopes: Scopes, f: FuncView) -> (ModuleView, Scopes) {
    (
        ModuleView { funcs: m.funcs.push(f), globals: m.globals },
        bound(scopes, f.name, IdInfo::Func(FuncId(m.funcs.len() as usize))),
    )
}

pub open spec fn int_ptr_ir() -> IrTyView {
    ptr_view(IrTyView::Int(32))
}

/// The module and the scopes with the six functions of the runtime library
/// declared: `getint() -> int`, `getch() -> int`,
/// `getarray(ptr<int>) -> int`, `putint(int)`, `putch(int)`,
/// `putarray(int, ptr<int>) -> int`.
pub open spec fn with_runtime(m: ModuleView, scopes: Scopes) -> (ModuleView, Scopes) {
    let (m, scopes) = with_func(m, scopes, builtin("getint"@, IrTyView::Int(32), seq![]));
    let (m, scopes) = with_func(m, scopes, builtin("getch"@, IrTyView::Int(32), seq![]));
    let (m, scopes) = with_func(
        m,
        scopes,
        builtin("getarray"@, IrTyView::Int(32), seq![int_ptr_ir()]),
    );
    let (m, scopes) = with_func(
        m,
        scopes,
        builtin("putint"@, IrTyView::Void, seq![IrTyView::Int(32)]),
    );
    let (m, scopes) = with_func(m, scopes, builtin("putch"@, IrTyView::Void, seq![IrTyView::Int(32)]));
    with_func(
        m,
        scopes,
        builtin("putarray"@, IrTyView::Int(32), seq![IrTyView::Int(32), int_ptr_ir()]),
    )
}

/// The module and the scopes with the functions of `library` from index
/// `from` on declared, each with its types lowered.
pub open spec fn add_library(
    m: ModuleView,
    scopes: Scopes,
    library: Seq<(Seq<char>, TyView, Seq<TyView>)>,
    from: nat,
) -> (ModuleView, Scopes)
    decreases library.len() - from,
{
    if from >= library.len() {
        (m, scopes)
    } else {
        let (name, ret_ty, params) = library[from as int];
        let (m1, scopes1) = with_func(
            m,
            scopes,
            builtin(name, lower_ty(ret_ty), Seq::new(params.len(), |i: int| lower_ty(params[i]))),
        );
        add_library(m1, scopes1, library, from + 1)
    }
}

/// The builder declares the runtime library that the type checker
/// declares: the same six functions, in the same order, each with the
/// types of the checker's signature lowered.
pub proof fn lemma_runtime_library_agrees(env: Env, m: ModuleView, scopes: Scopes)
    ensures
        with_builtins(env) == declare_library(env, runtime_library(), 0),
        with_runtime(m, scopes) == add_library(m, scopes, runtime_library(), 0),
{
    reveal_with_fuel(declare_library, 7);
    reveal_with_fuel(add_library, 7);
    reveal_with_fuel(lower_ty, 3);
    let library = runtime_library();
    assert(library.len() == 6);
    assert(Seq::new(0, |i: int| lower_ty(library[0].2[i])) =~= seq![]);
    assert(Seq::new(0, |i: int| lower_ty(library[1].2[i])) =~= seq![]);
    assert(Seq::new(1, |i: int| lower_ty(library[2].2[i])) =~= seq![int_ptr_ir()]);
    assert(Seq::new(1, |i: int| lower_ty(library[3].2[i])) =~= seq![IrTyView::Int(32)]);
    assert(Seq::new(1, |i: int| lower_ty(library[4].2[i])) =~= seq![IrTyView::Int(32)]);
    assert(Seq::new(2, |i: int| lower_ty(library[5].2[i])) =~= seq![IrTyView::Int(32), int_ptr_ir()]);
}

/// The global that a declared name of a global declaration is lowered to:
/// its type is a pointer to the declared type; it starts with the folded
/// initializer, or with zero if there is none.
pub open spec fn lower_global(sd: SubDeclView) -> GlobalView {
    GlobalView {
        name: sd.ident.name,
        ty: ptr_view(lower_ty(sd.ty)),
        init: match sd.init_val {
            Some(init) => match init.kind {
                InitValKindView::Const(lit) => literal_constant(lit),
                _ => arbitrary(),
            },
            None => zero_constant(lower_ty(sd.ty)),
        },
    }
}

/// The module and the scopes after the names of a global declaration from
/// index `from` on were lowered.
pub open spec fn lower_globals(m: ModuleView, scopes: Scopes, sds: Seq<SubDeclView>, from: nat) -> (
    ModuleView,
    Scopes,
)
    decreases sds.len() - from,
{
    if from >= sds.len() {
        (m, scopes)
    } else {
        let sd = sds[from as int];
        lower_globals(
            ModuleView { funcs: m.funcs, globals: m.globals.push(lower_global(sd)) },
            bound(scopes, sd.ident.name, IdInfo::Global(GlobalId(m.globals.len() as usize))),
            sds,
            from + 1,
        )
    }
}

/// The state after a parameter was lowered: a pointer is bound as it is;
/// any other value gets memory on the stack and is stored there, and the
/// name is bound to that address.
pub open spec fn lower_param(s: FuncState, p: FuncParamView) -> FuncState {
    let ty = lower_ty(p.ty);
    let id = ParamId(s.params.len() as usize);
    let s1 = FuncState { params: s.params.push(ty), ..s };
    if ty is Ptr {
        s1.with_name(p.ident.name, IdInfo::Param(id))
    } else {
        let addr = InstId(s1.insts.len() as usize);
        s1.with_code(seq![alloca(ty)]).with_name(p.ident.name, IdInfo::Inst(addr)).with_code(
            seq![store(OperandView::Inst(addr), OperandView::Param(id))],
        )
    }
}

pub open spec fn lower_params(s: FuncState, params: Seq<FuncParamView>, from: nat) -> FuncState
    decreases params.len() - from,
{
    if from >= params.len() {
        s
    } else {
        lower_params(lower_param(s, params[from as int]), params, from + 1)
    }
}

/// The state in which the body of a function starts: one empty block under
/// the cursor, and a new scope.
pub open spec fn entry_state(scopes: Scopes) -> FuncState {
    FuncState {
        insts: Seq::empty(),
        blocks: seq![Seq::empty()],
        order: seq![BBId(0)],
        params: Seq::empty(),
        cur: BBId(0),
        scopes: scopes.push(Map::empty()),
        targets: Seq::empty(),
    }
}

/// The function that a function of the program is lowered to, in a module
/// whose functions return `rets` and in the scopes in which its own name is
/// bound. Where the body ends a return is added: of nothing for a function
/// that returns nothing, else of zero.
pub open spec fn lower_func(rets: Seq<IrTyView>, scopes: Scopes, f: AstFuncView) -> Result<
    FuncView,
    ErrorView,
> {
    let ret_ty = lower_ty(ident_ty(f.ret_ty_ident.kind));
    let start = lower_params(entry_state(scopes), f.params, 0);
    match lower_block(rets, start, f.body) {
        Err(err) => Err(err),
        Ok(end) => {
            let done = end.with_inst_at(
                end.cur,
                ret(
                    if ret_ty is Void {
                        None
                    } else {
                        Some(zero_view())
                    },
                ),
            );
            Ok(
                FuncView {
                    name: f.ident.name,
                    is_builtin: false,
                    ret_ty,
                    params: done.params,
                    insts: done.insts,
                    blocks: done.blocks,
                    order: done.order,
                },
            )
        },
    }
}

pub open spec fn lower_program_item(m: ModuleView, scopes: Scopes, item: ProgramItemView) -> Result<
    (ModuleView, Scopes),
    ErrorView,
> {
    match item {
        ProgramItemView::Decl(d) => Ok(lower_globals(m, scopes, d.sub_decls, 0)),
        ProgramItemView::Func(f) => {
            let ret_ty = lower_ty(ident_ty(f.ret_ty_ident.kind));
            let declared = bound(scopes, f.ident.name, IdInfo::Func(FuncId(m.funcs.len() as usize)));
            match lower_func(rets_in(m).push(ret_ty), declared, f) {
                Err(err) => Err(err),
                Ok(func) => Ok(
                    (ModuleView { funcs: m.funcs.push(func), globals: m.globals }, declared),
                ),
            }
        },
    }
}

pub open spec fn lower_program_items(
    m: ModuleView,
    scopes: Scopes,
    items: Seq<ProgramItemView>,
    from: nat,
) -> Result<(ModuleView, Scopes), ErrorView>
    decreases items.len() - from,
{
    if from >= items.len() {
        Ok((m, scopes))
    } else {
        match lower_program_item(m, scopes, items[from as int]) {
            Err(err) => Err(err),
            Ok((m1, scopes1)) => lower_program_items(m1, scopes1, items, from + 1),
        }
    }
}

/// The module that a program is lowered to, from a module `m`: the runtime
/// library first, then a global for each declared name and a function for
/// each function of the program, in their order.
pub open spec fn lower_program(m: ModuleView, scopes: Scopes, p: ProgramView) -> Result<
    ModuleView,
    ErrorView,
> {
    let (m1, scopes1) = with_runtime(m, scopes.push(Map::empty()));
    match lower_program_items(m1, scopes1, p.program_items, 0) {
        Err(err) => Err(err),
        Ok((m2, _)) => Ok(m2),
    }
}

} // verus!
