use vstd::prelude::*;

use crate::ast::Program;
use crate::context::{Context, IdInfo};
use crate::err::{ErrorView, SemanticError};
use crate::ir::arena::{BBId, InstId};
use crate::ir::func::{BasicBlock, IrFunc, Param};
use crate::ir::inst::{insts_view, Inst, InstKind, InstView};
use crate::ir::ty::{IrTy, IrTyView};
use crate::ir_builder::expr_code::{handles, Names};
use crate::ir_builder::invariants::{
    Kinds, kinds_of, lemma_appended, lemma_block_added, lemma_extended_refl, lemma_extended_trans,
    lowerable_program, program_error,
};
use crate::ir_builder::stmt_code::FuncState;

mod can_lower;
mod control;
mod expr;
pub mod expr_code;
pub mod invariants;
pub mod module_code;
mod program;
mod stmt;
pub mod stmt_code;
use crate::ir_builder::module_code::lower_program;
use crate::ir::module::ModuleView;

verus! {

/// Where `break` and `continue` go inside one loop.
#[derive(Debug, Clone, Copy)]
pub struct BCTarget {
    pub break_target: BBId,
    pub continue_target: BBId,
}

/// The builder: its context, and for each loop around the statement that is
/// being lowered the blocks that `break` and `continue` jump to, the
/// innermost loop last.
pub struct IrBuilder {
    pub ctx: Context,
    pub loop_targets: Vec<BCTarget>,
}

/// What each function of a module returns.
pub open spec fn rets_of(funcs: Seq<IrFunc>) -> Seq<IrTyView> {
    Seq::new(funcs.len(), |i: int| funcs[i].ty.ret_ty@)
}

/// The handles of the instructions of each block.
pub open spec fn blocks_view(blocks: Seq<BasicBlock>) -> Seq<Seq<InstId>> {
    Seq::new(blocks.len(), |b: int| blocks[b].insts@)
}

/// The types of the parameters.
pub open spec fn params_tys(params: Seq<Param>) -> Seq<IrTyView> {
    Seq::new(params.len(), |i: int| params[i].ty@)
}

/// The function `after` is `before` with the instructions `code` added, in
/// their order, to the arena and to the end of block `cur`.
pub open spec fn coded(after: IrFunc, before: IrFunc, cur: BBId, code: Seq<InstView>) -> bool {
    &&& insts_view(after.insts@) == insts_view(before.insts@) + code
    &&& after.blocks@[cur.0 as int].insts@ == before.blocks@[cur.0 as int].insts@ + handles(
        before.insts@.len(),
        code.len(),
    )
}

pub proof fn lemma_coded_none(f: IrFunc, cur: BBId)
    ensures
        coded(f, f, cur, Seq::empty()),
{
    assert(insts_view(f.insts@) + Seq::<InstView>::empty() =~= insts_view(f.insts@));
    assert(f.blocks@[cur.0 as int].insts@ + handles(f.insts@.len(), 0) =~= f.blocks@[cur.0 as int].insts@);
}

/// Code added after code is the two pieces of code one after the other.
pub proof fn lemma_coded_trans(
    first: IrFunc,
    second: IrFunc,
    third: IrFunc,
    cur: BBId,
    code1: Seq<InstView>,
    code2: Seq<InstView>,
)
    requires
        coded(second, first, cur, code1),
        coded(third, second, cur, code2),
    ensures
        coded(third, first, cur, code1 + code2),
        second.insts@.len() == first.insts@.len() + code1.len(),
{
    assert(insts_view(second.insts@).len() == second.insts@.len());
    assert(insts_view(first.insts@).len() == first.insts@.len());
    assert((insts_view(first.insts@) + code1) + code2 =~= insts_view(first.insts@) + (code1 + code2));
    let n = first.insts@.len();
    assert(handles(n, code1.len()) + handles(n + code1.len(), code2.len()) =~= handles(
        n,
        code1.len() + code2.len(),
    ));
    assert((first.blocks@[cur.0 as int].insts@ + handles(n, code1.len())) + handles(
        n + code1.len(),
        code2.len(),
    ) =~= first.blocks@[cur.0 as int].insts@ + (handles(n, code1.len()) + handles(
        n + code1.len(),
        code2.len(),
    )));
}

impl IrBuilder {
    /// What each function of the module returns.
    pub open spec fn rets(&self) -> Seq<IrTyView> {
        rets_of(self.ctx.cur_module.funcs@)
    }

    /// The state of the builder inside the function under the cursor.
    pub open spec fn state(&self) -> FuncState {
        FuncState {
            insts: insts_view(self.ctx.func().insts@),
            blocks: blocks_view(self.ctx.func().blocks@),
            order: self.ctx.func().order@,
            params: params_tys(self.ctx.func().params@),
            cur: self.ctx.cur_bb,
            scopes: self.ctx.scope_builder@,
            targets: self.loop_targets@,
        }
    }

    /// What expressions are lowered against at this point.
    pub open spec fn names(&self) -> Names {
        Names { scopes: self.ctx.scope_builder@, rets: rets_of(self.ctx.cur_module.funcs@) }
    }

    /// Each function that a name in the scopes stands for is in the module.
    pub open spec fn funcs_known(&self) -> bool {
        forall|s: int, name: Seq<char>|
            0 <= s < self.ctx.scope_builder@.len() && (#[trigger] self.ctx.scope_builder@[s].contains_key(
                name,
            )) && self.ctx.scope_builder@[s][name] is Func ==> self.ctx.scope_builder@[s][name]->Func_0.0
                < self.ctx.cur_module.funcs@.len()
    }

    /// The names in the scopes, each with its kind.
    pub open spec fn kinds(&self) -> Kinds {
        kinds_of(self.ctx.scope_builder@)
    }

    /// What holds between two functions: there is a scope, each function
    /// named in the scopes is in the module, and each function of the
    /// module is finished.
    pub open spec fn module_inv(&self) -> bool {
        &&& self.ctx.scope_builder@.len() > 0
        &&& self.funcs_known()
        &&& self.loop_targets@.len() == 0
        &&& forall|i: int|
            0 <= i < self.ctx.cur_module.funcs@.len() ==> (#[trigger] self.ctx.cur_module.funcs@[i]).finished()
    }

    /// What holds while a function is lowered, but for the state of the
    /// block under the cursor.
    pub open spec fn base_inv(&self) -> bool {
        &&& self.ctx.in_func()
        &&& self.ctx.func().wf()
        &&& self.ctx.func().no_aggregate_load()
        &&& self.ctx.cur_bb.0 < self.ctx.func().blocks@.len()
        &&& forall|i: int|
            0 <= i < self.loop_targets@.len() ==> (#[trigger] self.loop_targets@[i]).break_target.0
                < self.ctx.func().blocks@.len() && self.loop_targets@[i].continue_target.0
                < self.ctx.func().blocks@.len()
        &&& self.ctx.scope_builder@.len() > 0
        &&& self.funcs_known()
        &&& forall|i: int|
            0 <= i < self.ctx.cur_module.funcs@.len() && i != self.ctx.cur_func.0 ==> (
            #[trigger] self.ctx.cur_module.funcs@[i]).finished()
    }

    /// What holds while a function is lowered: the cursor is in an open
    /// block of a function of the module.
    pub open spec fn inv(&self) -> bool {
        &&& self.base_inv()
        &&& self.ctx.func().open_block(self.ctx.cur_bb.0 as int)
    }

    /// Nothing but the function under the cursor, the cursor's block and
    /// the scopes differs between the two builders.
    pub open spec fn same_outside(&self, before: &IrBuilder) -> bool {
        &&& self.loop_targets@ == before.loop_targets@
        &&& self.ctx.cur_func == before.ctx.cur_func
        &&& self.ctx.cur_module.globals == before.ctx.cur_module.globals
        &&& self.ctx.cur_module.funcs@.len() == before.ctx.cur_module.funcs@.len()
        &&& forall|i: int|
            0 <= i < self.ctx.cur_module.funcs@.len() && i != self.ctx.cur_func.0
                ==> #[trigger] self.ctx.cur_module.funcs@[i] == before.ctx.cur_module.funcs@[i]
    }

    /// What lowering an expression does: it adds instructions that end no
    /// block to the block under the cursor.
    pub open spec fn expr_step(&self, before: &IrBuilder) -> bool {
        &&& self.same_outside(before)
        &&& self.ctx.scope_builder == before.ctx.scope_builder
        &&& self.ctx.cur_bb == before.ctx.cur_bb
        &&& self.ctx.func().extended_from(before.ctx.func(), before.ctx.cur_bb)
    }

    /// What lowering straight-line code does: it adds the instructions
    /// `code` to the block under the cursor, and nothing else changes.
    pub open spec fn lowered_as(&self, before: &IrBuilder, code: Seq<InstView>) -> bool {
        &&& self.inv()
        &&& self.expr_step(before)
        &&& self.names() == before.names()
        &&& coded(self.ctx.func(), before.ctx.func(), before.ctx.cur_bb, code)
    }

    /// What lowering a statement does: the block that was under the cursor
    /// and each new block is closed, but for the one under the cursor now.
    pub open spec fn stmt_step(&self, before: &IrBuilder) -> bool {
        &&& self.same_outside(before)
        &&& self.ctx.scope_builder@ == before.ctx.scope_builder@
        &&& self.ctx.func().lowered_from(before.ctx.func(), before.ctx.cur_bb, self.ctx.cur_bb)
    }

    #[must_use]
    pub fn new() -> (out: IrBuilder)
        ensures
            out.ctx.scope_builder@ == Seq::<Map<Seq<char>, IdInfo>>::empty(),
            out.ctx.cur_module.funcs@.len() == 0,
            out.ctx.cur_module.globals@.len() == 0,
            out.loop_targets@.len() == 0,
    {
        IrBuilder { ctx: Context::new(), loop_targets: Vec::new() }
    }

    /// Lowers a checked program into the module of the context. When it
    /// succeeds, each function of the module is finished: each of its
    /// blocks ends in its one terminator, each branch goes to a block of
    /// the same function, and no array is loaded as a value. The program
    /// must be one that the builder can lower: `can_lower` tests that for a
    /// new builder, and `build` lowers after that test.
    pub fn visit(&mut self, program: &Program) -> (out: Result<(), SemanticError>)
        requires
            forall|i: int|
                0 <= i < old(self).ctx.cur_module.funcs@.len() ==> (
                #[trigger] old(self).ctx.cur_module.funcs@[i]).finished(),
            old(self).loop_targets@.len() == 0,
            old(self).funcs_known(),
            lowerable_program(old(self).kinds(), program@),
        ensures
            match program_error(program@.program_items, 0) {
                Some(err) => out matches Err(e) && e@ == err,
                None => {
                    &&& out is Ok
                    &&& final(self).ctx.scope_builder@ == old(self).ctx.scope_builder@
                    &&& forall|i: int|
                        0 <= i < final(self).ctx.cur_module.funcs@.len() ==> (
                        #[trigger] final(self).ctx.cur_module.funcs@[i]).finished()
                    &&& lower_program(
                        old(self).ctx.cur_module@,
                        old(self).ctx.scope_builder@,
                        program@,
                    ) == Ok::<ModuleView, ErrorView>(
                        final(self).ctx.cur_module@,
                    )
                },
            },
    {
        self.visit_program(program)
    }

    pub fn push_break_target(&mut self, break_target: BBId, continue_target: BBId)
        ensures
            final(self).ctx == old(self).ctx,
            final(self).loop_targets@ == old(self).loop_targets@.push(
                BCTarget { break_target, continue_target },
            ),
    {
        self.loop_targets.push(BCTarget { break_target, continue_target });
    }

    pub fn pop_loop_target(&mut self)
        ensures
            final(self).ctx == old(self).ctx,
            old(self).loop_targets@.len() > 0 ==> final(self).loop_targets@ == old(self).loop_targets@.drop_last(),
            old(self).loop_targets@.len() == 0 ==> final(self).loop_targets@ == old(self).loop_targets@,
    {
        self.loop_targets.pop();
    }

    /// The block that a `break` jumps to, if a loop is around.
    pub fn get_break_target(&self) -> (out: Option<BBId>)
        ensures
            out == if self.loop_targets@.len() > 0 {
                Some(self.loop_targets@.last().break_target)
            } else {
                None
            },
    {
        let n = self.loop_targets.len();
        if n == 0 {
            None
        } else {
            Some(self.loop_targets[n - 1].break_target)
        }
    }

    /// The block that a `continue` jumps to, if a loop is around.
    pub fn get_continue_target(&self) -> (out: Option<BBId>)
        ensures
            out == if self.loop_targets@.len() > 0 {
                Some(self.loop_targets@.last().continue_target)
            } else {
                None
            },
    {
        let n = self.loop_targets.len();
        if n == 0 {
            None
        } else {
            Some(self.loop_targets[n - 1].continue_target)
        }
    }

    /// Adds an instruction that ends no block to the block under the
    /// cursor.
    pub fn emit(&mut self, inst_kind: InstKind, ty: IrTy) -> (out: InstId)
        requires
            old(self).inv(),
            !inst_kind.is_terminator(),
            !(inst_kind is Load && ty is Array),
        ensures
            final(self).inv(),
            final(self).expr_step(old(self)),
            final(self).names() == old(self).names(),
            final(self).lowered_as(old(self), seq![(Inst { kind: inst_kind, ty })@]),
            final(self).ctx.func().appended(
                old(self).ctx.func(),
                Inst { kind: inst_kind, ty },
                old(self).ctx.cur_bb,
                out,
            ),
            coded(
                final(self).ctx.func(),
                old(self).ctx.func(),
                old(self).ctx.cur_bb,
                seq![(Inst { kind: inst_kind, ty })@],
            ),
            out.0 == old(self).ctx.func().insts@.len(),
    {
        let id = self.ctx.build_inst_end_of_cur(inst_kind, ty);
        proof {
            let before = old(self).ctx.func();
            let after = self.ctx.func();
            lemma_appended(before, after, Inst { kind: inst_kind, ty }, old(self).ctx.cur_bb, id);
            assert(before.insts.len() == before.insts@.len());
            assert(insts_view(after.insts@) =~= insts_view(before.insts@) + seq![
                (Inst { kind: inst_kind, ty })@,
            ]);
            assert(handles(before.insts@.len(), 1) =~= seq![id]);
            assert(after.blocks@[old(self).ctx.cur_bb.0 as int].insts@
                =~= before.blocks@[old(self).ctx.cur_bb.0 as int].insts@ + handles(
                before.insts@.len(),
                1,
            ));
            lemma_names_kept(old(self), self);
        }
        id
    }

    /// Ends block `bb`, which is open, with a terminator that branches to
    /// blocks of the function.
    pub fn terminate(&mut self, inst_kind: InstKind, bb: BBId)
        requires
            old(self).base_inv(),
            bb.0 < old(self).ctx.func().blocks@.len(),
            old(self).ctx.func().open_block(bb.0 as int),
            inst_kind.is_terminator(),
            inst_kind.targets_within(old(self).ctx.func().blocks@.len() as int),
        ensures
            final(self).base_inv(),
            final(self).same_outside(old(self)),
            final(self).ctx.scope_builder == old(self).ctx.scope_builder,
            final(self).ctx.cur_bb == old(self).ctx.cur_bb,
            final(self).ctx.func().extended_from(old(self).ctx.func(), bb),
            final(self).ctx.func().closed_block(bb.0 as int),
            final(self).ctx.func().appended(
                old(self).ctx.func(),
                Inst { kind: inst_kind, ty: IrTy::Void },
                bb,
                InstId(old(self).ctx.func().insts@.len() as usize),
            ),
            final(self).rets() == old(self).rets(),
            final(self).state() == old(self).state().with_inst_at(
                bb,
                (Inst { kind: inst_kind, ty: IrTy::Void })@,
            ),
            forall|b: int|
                0 <= b < old(self).ctx.func().blocks@.len() && b != bb.0 && old(self).ctx.func().open_block(b) ==> #[trigger] final(self).ctx.func().open_block(b),
            forall|b: int|
                0 <= b < old(self).ctx.func().blocks@.len() && b != bb.0 && old(self).ctx.func().closed_block(b) ==> #[trigger] final(self).ctx.func().closed_block(b),
    {
        let ghost inst = Inst { kind: inst_kind, ty: IrTy::Void };
        let id = self.ctx.build_inst_end(inst_kind, IrTy::Void, bb);
        proof {
            let before = old(self).ctx.func();
            let after = self.ctx.func();
            lemma_appended(before, after, inst, bb, id);
            assert(before.insts.len() == before.insts@.len());
            assert(rets_of(self.ctx.cur_module.funcs@) =~= rets_of(old(self).ctx.cur_module.funcs@));
            let model = old(self).state().with_inst_at(bb, inst@);
            assert(self.state().insts =~= model.insts);
            assert(self.state().blocks =~= model.blocks);
            assert(self.state().params =~= model.params);
        }
    }

    /// Adds an empty block right after the block under the cursor. The
    /// cursor stays.
    pub fn new_block(&mut self) -> (out: BBId)
        requires
            old(self).base_inv(),
        ensures
            final(self).base_inv(),
            final(self).same_outside(old(self)),
            final(self).ctx.scope_builder == old(self).ctx.scope_builder,
            final(self).ctx.cur_bb == old(self).ctx.cur_bb,
            final(self).ctx.func().block_added(old(self).ctx.func(), out),
            final(self).ctx.func().grown_from(old(self).ctx.func()),
            final(self).ctx.func().open_block(out.0 as int),
            out.0 == old(self).ctx.func().blocks@.len(),
            out == old(self).state().next_block(),
            final(self).rets() == old(self).rets(),
            final(self).state() == old(self).state().with_block(),
            forall|b: int|
                0 <= b < old(self).ctx.func().blocks@.len() ==> #[trigger] final(self).ctx.func().blocks@[b] == old(self).ctx.func().blocks@[b],
            forall|b: int|
                0 <= b < old(self).ctx.func().blocks@.len() && old(self).ctx.func().open_block(b)
                    ==> #[trigger] final(self).ctx.func().open_block(b),
            forall|b: int|
                0 <= b < old(self).ctx.func().blocks@.len() && old(self).ctx.func().closed_block(b)
                    ==> #[trigger] final(self).ctx.func().closed_block(b),
    {
        let id = self.ctx.build_bb_after_cur();
        proof {
            lemma_block_added(old(self).ctx.func(), self.ctx.func(), id);
            assert(old(self).ctx.func().blocks.len() == old(self).ctx.func().blocks@.len());
            assert(rets_of(self.ctx.cur_module.funcs@) =~= rets_of(old(self).ctx.cur_module.funcs@));
            let model = old(self).state().with_block();
            assert(self.state().blocks =~= model.blocks) by {
                assert forall|b: int| 0 <= b < model.blocks.len() implies self.state().blocks[b]
                    == model.blocks[b] by {
                    if b < old(self).ctx.func().blocks@.len() {
                        assert(self.ctx.func().blocks@[b] == old(self).ctx.func().blocks@[b]);
                    } else {
                        assert(self.ctx.func().blocks@.last() == self.ctx.func().blocks@[b]);
                        assert(self.state().blocks[b] =~= Seq::<InstId>::empty());
                    }
                }
            }
            assert(self.state().insts =~= model.insts);
            assert(self.state().params =~= model.params);
        }
        id
    }
}

pub proof fn lemma_lowered_as_none(b: &IrBuilder)
    requires
        b.inv(),
    ensures
        b.lowered_as(b, Seq::empty()),
{
    lemma_coded_none(b.ctx.func(), b.ctx.cur_bb);
    lemma_extended_refl(b.ctx.func(), b.ctx.cur_bb);
}

/// Straight-line code after straight-line code is both, one after the
/// other.
pub proof fn lemma_lowered_as_trans(
    first: &IrBuilder,
    second: &IrBuilder,
    third: &IrBuilder,
    code1: Seq<InstView>,
    code2: Seq<InstView>,
)
    requires
        second.lowered_as(first, code1),
        third.lowered_as(second, code2),
    ensures
        third.lowered_as(first, code1 + code2),
        second.ctx.func().insts@.len() == first.ctx.func().insts@.len() + code1.len(),
{
    lemma_expr_step_trans(first, second, third);
    lemma_coded_trans(
        first.ctx.func(),
        second.ctx.func(),
        third.ctx.func(),
        first.ctx.cur_bb,
        code1,
        code2,
    );
}

/// Straight-line code changes the state by that code alone.
pub proof fn lemma_lowered_as_state(before: &IrBuilder, after: &IrBuilder, code: Seq<InstView>)
    requires
        before.inv(),
        after.lowered_as(before, code),
    ensures
        after.state() == before.state().with_code(code),
        after.rets() == before.rets(),
{
    let model = before.state().with_code(code);
    assert(insts_view(before.ctx.func().insts@).len() == before.ctx.func().insts@.len());
    assert(after.state().blocks =~= model.blocks) by {
        assert forall|b: int| 0 <= b < model.blocks.len() implies after.state().blocks[b]
            == model.blocks[b] by {
            if b != before.ctx.cur_bb.0 {
                assert(after.ctx.func().blocks@[b] == before.ctx.func().blocks@[b]);
            }
        }
    }
    assert(after.state().params =~= model.params);
}

/// An expression step keeps what the names stand for and what the
/// functions return.
pub proof fn lemma_names_kept(before: &IrBuilder, after: &IrBuilder)
    requires
        before.ctx.in_func(),
        after.expr_step(before),
    ensures
        after.names() == before.names(),
{
    assert(rets_of(after.ctx.cur_module.funcs@) =~= rets_of(before.ctx.cur_module.funcs@));
}

/// One expression step after another is an expression step.
pub proof fn lemma_expr_step_trans(first: &IrBuilder, second: &IrBuilder, third: &IrBuilder)
    requires
        second.expr_step(first),
        third.expr_step(second),
    ensures
        third.expr_step(first),
{
    lemma_extended_trans(first.ctx.func(), second.ctx.func(), third.ctx.func(), first.ctx.cur_bb);
}

} // verus!
