use vstd::prelude::*;

use crate::ast::{IfStmt, WhileStmt};
use crate::ast_view::StmtView;
use crate::err::{ErrorView, SemanticError};
use crate::ir::arena::BBId;
use crate::ir::inst::{Br, InstKind};
use crate::ir::inst::Inst;
use crate::ir::ty::IrTy;
use crate::ir_builder::{lemma_lowered_as_state, BCTarget, IrBuilder};
use crate::ir_builder::expr_code::expr_code;
use crate::ir_builder::invariants::{
    lemma_partly_block_added, lemma_partly_closed, lemma_partly_done, lemma_partly_extended,
    lemma_partly_lowered, lemma_partly_start, lowerable_stmt, stmt_error,
};
use crate::ir_builder::stmt_code::{branch, jump, lower_if, lower_while, FuncState};

verus! {

impl IrBuilder {
    /// Lowers `if`: the condition in the block under the cursor, the
    /// branches in new blocks after it, then a new block where both
    /// branches meet and the cursor ends. The block that held the cursor
    /// branches on the condition to the first block of the then-branch and
    /// to that of the else-branch, or to the meeting block if there is no
    /// else-branch; the end of each branch jumps to the meeting block.
    pub fn visit_if_stmt(&mut self, stmt: &IfStmt) -> (out: Result<(), SemanticError>)
        requires
            old(self).inv(),
            lowerable_stmt(old(self).kinds(), StmtView::If(stmt@)),
        ensures
            match stmt_error(old(self).loop_targets@.len(), StmtView::If(stmt@)) {
                Some(err) => out matches Err(e) && e@ == err,
                None => {
                    let before = old(self).ctx.func();
                    let after = final(self).ctx.func();
                    let origin = old(self).ctx.cur_bb.0 as int;
                    let last = after.blocks@[origin].insts@.len() - 1;
                    &&& out is Ok
                    &&& final(self).inv()
                    &&& final(self).stmt_step(old(self))
                    &&& after.blocks@.len() >= before.blocks@.len() + 2
                    &&& final(self).ctx.cur_bb.0 == after.blocks@.len() - 1
                    &&& after.blocks@[final(self).ctx.cur_bb.0 as int].insts@.len() == 0
                    &&& after.kind_at(origin, last) matches InstKind::Br(
                        Br::Br { true_bb, false_bb, .. },
                    )
                    &&& true_bb.0 == before.blocks@.len()
                    &&& stmt.else_block is None ==> false_bb == final(self).ctx.cur_bb
                    &&& final(self).rets() == old(self).rets()
                    &&& lower_if(old(self).rets(), old(self).state(), stmt@) == Ok::<
                        FuncState,
                        ErrorView,
                    >(final(self).state())
                },
            },
        decreases stmt, 0nat,
    {
        let ghost s0 = *self;
        let ghost rets = self.rets();
        let ghost m0 = self.state();
        let ghost f0 = self.ctx.func();
        let old_bb = self.ctx.get_cur_bb_id();
        proof {
            lemma_partly_start(f0, old_bb);
        }
        let cond = match self.visit_expr(&stmt.cond) {
            Ok(v) => v,
            Err(e) => {
                return Err(e);
            },
        };
        let ghost pend1 = set![old_bb.0 as int];
        let ghost cond_code = expr_code(s0.names(), f0.insts@.len(), stmt@.cond);
        proof {
            lemma_partly_extended(f0, f0, self.ctx.func(), old_bb, pend1, old_bb);
            lemma_lowered_as_state(&s0, self, cond_code.0);
            assert(m0.insts.len() == f0.insts@.len());
        }
        let ghost m1 = self.state();

        // then blk
        let ghost f1 = self.ctx.func();
        let then_bb = self.new_block();
        let ghost pend2 = pend1.insert(then_bb.0 as int);
        proof {
            lemma_partly_block_added(f0, f1, self.ctx.func(), old_bb, pend1, then_bb);
        }
        self.ctx.set_cur_bb(then_bb);
        let ghost f2 = self.ctx.func();
        proof {
            assert(self.state() == m1.with_block().at(then_bb));
        }
        match self.visit_stmt(&stmt.then_block) {
            Ok(_) => {},
            Err(e) => {
                return Err(e);
            },
        }
        let then_bb_end = self.ctx.get_cur_bb_id();
        let ghost pend3 = pend2.remove(then_bb.0 as int).insert(then_bb_end.0 as int);
        let ghost m2 = self.state();
        proof {
            lemma_partly_lowered(f0, f2, self.ctx.func(), old_bb, pend2, then_bb, then_bb_end);
        }

        // else bb
        let ghost f3 = self.ctx.func();
        let ghost mut pend5 = pend3;
        let (else_bb, else_bb_end) = if let Some(else_blk) = &stmt.else_block {
            let else_bb = self.new_block();
            let ghost pend4 = pend3.insert(else_bb.0 as int);
            proof {
                lemma_partly_block_added(f0, f3, self.ctx.func(), old_bb, pend3, else_bb);
            }
            self.ctx.set_cur_bb(else_bb);
            let ghost f4 = self.ctx.func();
            proof {
                assert(self.state() == m2.with_block().at(else_bb));
            }
            match self.visit_stmt(else_blk) {
                Ok(_) => {},
                Err(e) => {
                    return Err(e);
                },
            }
            let else_bb_end = self.ctx.get_cur_bb_id();
            proof {
                lemma_partly_lowered(f0, f4, self.ctx.func(), old_bb, pend4, else_bb, else_bb_end);
                pend5 = pend4.remove(else_bb.0 as int).insert(else_bb_end.0 as int);
            }
            (Some(else_bb), Some(else_bb_end))
        } else {
            (None, None)
        };

        // nxt bb
        let ghost f5 = self.ctx.func();
        let ghost m3 = self.state();
        let nxt_bb = self.new_block();
        let ghost pend6 = pend5.insert(nxt_bb.0 as int);
        proof {
            lemma_partly_block_added(f0, f5, self.ctx.func(), old_bb, pend5, nxt_bb);
        }
        let ghost f6 = self.ctx.func();
        let false_bb = match else_bb {
            Some(bb) => bb,
            None => nxt_bb,
        };
        let ghost cond_view = cond@;
        let cond_br_inst = Br::Br { cond, true_bb: then_bb, false_bb };
        self.terminate(InstKind::Br(cond_br_inst), old_bb);
        let ghost pend7 = pend6.remove(old_bb.0 as int);
        proof {
            lemma_partly_closed(f0, f6, self.ctx.func(), old_bb, pend6, old_bb);
        }
        let ghost f7 = self.ctx.func();
        self.terminate(InstKind::Br(Br::Jump { nxt_bb }), then_bb_end);
        let ghost pend8 = pend7.remove(then_bb_end.0 as int);
        proof {
            lemma_partly_closed(f0, f7, self.ctx.func(), old_bb, pend7, then_bb_end);
        }
        let ghost f8 = self.ctx.func();
        let ghost mut pend9 = pend8;
        if let Some(else_bb_end) = else_bb_end {
            self.terminate(InstKind::Br(Br::Jump { nxt_bb }), else_bb_end);
            proof {
                lemma_partly_closed(f0, f8, self.ctx.func(), old_bb, pend8, else_bb_end);
                pend9 = pend8.remove(else_bb_end.0 as int);
            }
        }
        self.ctx.set_cur_bb(nxt_bb);
        proof {
            assert(pend9 =~= set![nxt_bb.0 as int]);
            lemma_partly_done(f0, self.ctx.func(), old_bb, nxt_bb);
            let after = self.ctx.func();
            let origin = old_bb.0 as int;
            assert(self.inv());
            assert(self.stmt_step(old(self)));
            assert(f1.blocks@.len() == f0.blocks@.len());
            assert(then_bb.0 == f0.blocks@.len());
            assert(f5.blocks@.len() >= f0.blocks@.len() + 1);
            assert(nxt_bb.0 == f5.blocks@.len());
            assert(after.blocks@.len() == f5.blocks@.len() + 1);
            assert(f6.blocks@[nxt_bb.0 as int].insts@.len() == 0);
            assert(f7.blocks@[nxt_bb.0 as int] == f6.blocks@[nxt_bb.0 as int]);
            assert(f8.blocks@[nxt_bb.0 as int] == f7.blocks@[nxt_bb.0 as int]);
            assert(after.blocks@[nxt_bb.0 as int] == f8.blocks@[nxt_bb.0 as int]);
            assert(f6.insts.len() == f6.insts@.len());
            let last = f7.blocks@[origin].insts@.len() - 1;
            assert(f7.kind_at(origin, last) == InstKind::Br(cond_br_inst));
            assert(f8.blocks@[origin] == f7.blocks@[origin]);
            assert(after.blocks@[origin] == f8.blocks@[origin]);
            assert(after.kind_at(origin, last) == f7.kind_at(origin, last));
            assert(cond_view == cond_code.1);
            assert((Inst { kind: InstKind::Br(cond_br_inst), ty: IrTy::Void })@ == branch(
                cond_view,
                then_bb,
                false_bb,
            ));
            assert((Inst { kind: InstKind::Br(Br::Jump { nxt_bb }), ty: IrTy::Void })@ == jump(nxt_bb));
            let branched = m3.with_block().with_inst_at(old_bb, branch(cond_view, then_bb, false_bb));
            if stmt.else_block is None {
                assert(self.state() == branched.with_inst_at(then_bb_end, jump(nxt_bb)).at(nxt_bb));
            } else {
                assert(self.state() == branched.with_inst_at(then_bb_end, jump(nxt_bb)).with_inst_at(
                    else_bb_end->Some_0,
                    jump(nxt_bb),
                ).at(nxt_bb));
            }
        }
        Ok(())
    }

    /// Lowers `while`: a new block that evaluates the condition, a block
    /// for the body and a block after the loop, where the cursor ends; the
    /// three are laid out in this order. The block that held the cursor
    /// jumps to the condition; the condition branches to the body and to
    /// the block after the loop; the end of the body jumps back to the
    /// condition. Inside the body `break` goes to the block after the loop
    /// and `continue` to the condition.
    pub fn visit_while_stmt(&mut self, stmt: &WhileStmt) -> (out: Result<(), SemanticError>)
        requires
            old(self).inv(),
            lowerable_stmt(old(self).kinds(), StmtView::While(stmt@)),
        ensures
            match stmt_error(old(self).loop_targets@.len(), StmtView::While(stmt@)) {
                Some(err) => out matches Err(e) && e@ == err,
                None => {
                    let before = old(self).ctx.func();
                    let after = final(self).ctx.func();
                    let origin = old(self).ctx.cur_bb.0 as int;
                    let last = after.blocks@[origin].insts@.len() - 1;
                    &&& out is Ok
                    &&& final(self).inv()
                    &&& final(self).stmt_step(old(self))
                    &&& after.blocks@.len() >= before.blocks@.len() + 3
                    &&& final(self).ctx.cur_bb.0 == before.blocks@.len() + 2
                    &&& after.kind_at(origin, last) == InstKind::Br(
                        Br::Jump { nxt_bb: BBId(before.blocks@.len() as usize) },
                    )
                    &&& final(self).rets() == old(self).rets()
                    &&& lower_while(old(self).rets(), old(self).state(), stmt@) == Ok::<
                        FuncState,
                        ErrorView,
                    >(final(self).state())
                },
            },
        decreases stmt, 0nat,
    {
        let ghost s0 = *self;
        let ghost rets = self.rets();
        let ghost m0 = self.state();
        let ghost f0 = self.ctx.func();
        let old_bb = self.ctx.get_cur_bb_id();
        let ghost pend0 = set![old_bb.0 as int];
        proof {
            lemma_partly_start(f0, old_bb);
        }

        // cond_bb
        let cond_bb = self.new_block();
        let ghost pend1 = pend0.insert(cond_bb.0 as int);
        proof {
            lemma_partly_block_added(f0, f0, self.ctx.func(), old_bb, pend0, cond_bb);
        }
        self.ctx.set_cur_bb(cond_bb);
        let ghost f1 = self.ctx.func();
        let ghost s1 = *self;
        let ghost m1 = self.state();
        let ghost cond_code = expr_code(s1.names(), f1.insts@.len(), stmt@.cond);
        proof {
            assert(m1 == m0.with_block().at(cond_bb));
        }
        let cond = match self.visit_expr(&stmt.cond) {
            Ok(v) => v,
            Err(e) => {
                return Err(e);
            },
        };
        proof {
            lemma_partly_extended(f0, f1, self.ctx.func(), old_bb, pend1, cond_bb);
            lemma_lowered_as_state(&s1, self, cond_code.0);
            assert(m1.insts.len() == f1.insts@.len());
        }
        let ghost m2 = self.state();

        // loop_bb, nxt_bb
        let ghost f2 = self.ctx.func();
        let loop_bb = self.new_block();
        let ghost pend2 = pend1.insert(loop_bb.0 as int);
        proof {
            lemma_partly_block_added(f0, f2, self.ctx.func(), old_bb, pend1, loop_bb);
        }
        self.ctx.set_cur_bb(loop_bb);
        let ghost f3 = self.ctx.func();
        let nxt_bb = self.new_block();
        let ghost pend3 = pend2.insert(nxt_bb.0 as int);
        proof {
            lemma_partly_block_added(f0, f3, self.ctx.func(), old_bb, pend2, nxt_bb);
        }

        // visit loop_bb
        self.push_break_target(nxt_bb, cond_bb);
        let ghost f4 = self.ctx.func();
        let ghost m4 = self.state();
        proof {
            assert(m4 == m2.with_block().at(loop_bb).with_block().with_target(
                BCTarget { break_target: nxt_bb, continue_target: cond_bb },
            ));
            assert(self.rets() == rets);
        }
        proof {
            assert(self.funcs_known());
            assert forall|i: int| 0 <= i < self.loop_targets@.len() implies (
            #[trigger] self.loop_targets@[i]).break_target.0 < self.ctx.func().blocks@.len()
                && self.loop_targets@[i].continue_target.0 < self.ctx.func().blocks@.len() by {
                if i < s0.loop_targets@.len() {
                    assert(self.loop_targets@[i] == s0.loop_targets@[i]);
                }
            }
        }
        match self.visit_stmt(&stmt.body) {
            Ok(_) => {},
            Err(e) => {
                return Err(e);
            },
        }
        let ghost m5 = self.state();
        self.pop_loop_target();
        let loop_end_bb = self.ctx.get_cur_bb_id();
        let ghost pend4 = pend3.remove(loop_bb.0 as int).insert(loop_end_bb.0 as int);
        proof {
            lemma_partly_lowered(f0, f4, self.ctx.func(), old_bb, pend3, loop_bb, loop_end_bb);
            assert(self.loop_targets@ =~= s0.loop_targets@);
            assert forall|i: int| 0 <= i < self.loop_targets@.len() implies (
            #[trigger] self.loop_targets@[i]).break_target.0 < self.ctx.func().blocks@.len()
                && self.loop_targets@[i].continue_target.0 < self.ctx.func().blocks@.len() by {
                assert(self.loop_targets@[i] == s0.loop_targets@[i]);
            }
        }

        let ghost f5 = self.ctx.func();
        self.terminate(InstKind::Br(Br::Jump { nxt_bb: cond_bb }), old_bb);
        let ghost pend5 = pend4.remove(old_bb.0 as int);
        proof {
            lemma_partly_closed(f0, f5, self.ctx.func(), old_bb, pend4, old_bb);
        }
        let ghost f6 = self.ctx.func();
        let ghost cond_view = cond@;
        let loop_cond_br_inst = Br::Br { cond, true_bb: loop_bb, false_bb: nxt_bb };
        self.terminate(InstKind::Br(loop_cond_br_inst), cond_bb);
        let ghost pend6 = pend5.remove(cond_bb.0 as int);
        proof {
            lemma_partly_closed(f0, f6, self.ctx.func(), old_bb, pend5, cond_bb);
        }
        let ghost f7 = self.ctx.func();
        self.terminate(InstKind::Br(Br::Jump { nxt_bb: cond_bb }), loop_end_bb);
        let ghost pend7 = pend6.remove(loop_end_bb.0 as int);
        proof {
            lemma_partly_closed(f0, f7, self.ctx.func(), old_bb, pend6, loop_end_bb);
        }
        self.ctx.set_cur_bb(nxt_bb);
        proof {
            assert(pend7 =~= set![nxt_bb.0 as int]);
            lemma_partly_done(f0, self.ctx.func(), old_bb, nxt_bb);
            let after = self.ctx.func();
            let origin = old_bb.0 as int;
            assert(self.inv());
            assert(self.stmt_step(old(self)));
            assert(cond_bb.0 == f0.blocks@.len());
            assert(f2.blocks@.len() == f0.blocks@.len() + 1);
            assert(loop_bb.0 == f0.blocks@.len() + 1);
            assert(nxt_bb.0 == f0.blocks@.len() + 2);
            assert(f5.insts.len() == f5.insts@.len());
            let last = f6.blocks@[origin].insts@.len() - 1;
            assert(f6.kind_at(origin, last) == InstKind::Br(Br::Jump { nxt_bb: cond_bb }));
            assert(f7.blocks@[origin] == f6.blocks@[origin]);
            assert(after.blocks@[origin] == f7.blocks@[origin]);
            assert(after.kind_at(origin, last) == f6.kind_at(origin, last));
            assert(f0.blocks.len() == f0.blocks@.len());
            assert(cond_view == cond_code.1);
            assert((Inst { kind: InstKind::Br(loop_cond_br_inst), ty: IrTy::Void })@ == branch(
                cond_view,
                loop_bb,
                nxt_bb,
            ));
            assert((Inst { kind: InstKind::Br(Br::Jump { nxt_bb: cond_bb }), ty: IrTy::Void })@
                == jump(cond_bb));
            assert(self.state() == m5.without_target().with_inst_at(old_bb, jump(cond_bb)).with_inst_at(
                cond_bb,
                branch(cond_view, loop_bb, nxt_bb),
            ).with_inst_at(loop_end_bb, jump(cond_bb)).at(nxt_bb));
        }
        Ok(())
    }
}

} // verus!
