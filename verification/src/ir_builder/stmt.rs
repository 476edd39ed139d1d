use vstd::pervasive::unreached;
use vstd::prelude::*;

use crate::ast::{BlockItem, BlockStmt, Decl, Expr, InitVal, InitValKind, ReturnStmt, Stmt, SubDecl};
use crate::ast_view::{
    BlockItemView, StmtView, block_items_view, init_vals_view, lemma_block_items_view,
    lemma_init_vals_view, sub_decls_view,
};
use crate::context::IdInfo;
use crate::err::{ErrorView, SemanticError};
use crate::ir::arena::InstId;
use crate::ir::constant::ConstantView;
use crate::ir::inst::{
    Alloca, Br, GEP, InstKind, InstKindView, Operand, OperandView, RetInst, Store, operands_view,
};
use crate::ir::inst::{Inst, InstView};
use crate::ir::ty::{IrTy, lower_ty};
use crate::ir_builder::{
    lemma_lowered_as_none, lemma_lowered_as_state, lemma_lowered_as_trans, IrBuilder,
};
use crate::ir_builder::expr_code::{expr_code, zero_view};
use crate::ir_builder::invariants::{
    Kind, declare_kind, items_error, kind_of, kinds_after_decls, lemma_extended_is_lowered,
    lemma_extended_refl, lemma_extended_trans, lemma_grown_trans, lemma_lowered_trans,
    lowerable_block, lowerable_expr, lowerable_init, lowerable_item, lowerable_items,
    lowerable_local, lowerable_locals, lowerable_stmt, stmt_error,
};
use crate::ir_builder::stmt_code::{
    FuncState, alloca, elem_ptr, init_code, inits_code, jump, lower_block, lower_expr_stmt,
    lower_item, lower_items, lower_local, lower_locals, lower_stmt, store,
};
use crate::scope::{lemma_map_insert, lemma_map_push};
use crate::span::Span;

verus! {

impl IrBuilder {
    /// What lowering a declaration does: it adds instructions that end no
    /// block to the block under the cursor, and declares names in the
    /// innermost scope.
    pub open spec fn decl_step(&self, before: &IrBuilder) -> bool {
        &&& self.same_outside(before)
        &&& self.ctx.cur_bb == before.ctx.cur_bb
        &&& self.ctx.func().extended_from(before.ctx.func(), before.ctx.cur_bb)
        &&& self.ctx.scope_builder@.len() == before.ctx.scope_builder@.len()
        &&& self.ctx.scope_builder@.drop_last() == before.ctx.scope_builder@.drop_last()
    }

    /// Binds `name` in the innermost scope, unless that scope holds the
    /// name already.
    pub fn bind(&mut self, name: &str, info: IdInfo)
        requires
            old(self).ctx.scope_builder@.len() > 0,
            old(self).funcs_known(),
            info matches IdInfo::Func(id) ==> id.0 < old(self).ctx.cur_module.funcs@.len(),
        ensures
            final(self).funcs_known(),
            final(self).loop_targets == old(self).loop_targets,
            final(self).loop_targets@ == old(self).loop_targets@,
            final(self).ctx.cur_module == old(self).ctx.cur_module,
            final(self).ctx.cur_func == old(self).ctx.cur_func,
            final(self).ctx.cur_bb == old(self).ctx.cur_bb,
            final(self).ctx.scope_builder@.len() == old(self).ctx.scope_builder@.len(),
            final(self).ctx.scope_builder@.drop_last() == old(self).ctx.scope_builder@.drop_last(),
            final(self).kinds() == declare_kind(old(self).kinds(), name@, kind_of(info)),
            final(self).state() == old(self).state().with_name(name@, info),
            final(self).rets() == old(self).rets(),
    {
        proof {
            lemma_map_insert(
                self.ctx.scope_builder@,
                |info: IdInfo| kind_of(info),
                name@,
                info,
            );
        }
        let _ = self.ctx.scope_builder.insert(name, info);
        proof {
            assert(self.ctx.scope_builder@.drop_last() =~= old(self).ctx.scope_builder@.drop_last());
        }
    }

    /// Stores an initializer at the address `base_addr`: an expression is
    /// stored there; each element of a list is stored at the address that
    /// the indices zero and its place make of `base_addr`.
    #[verifier::loop_isolation(false)]
    pub fn build_decl_init_val(&mut self, init_val: &InitVal, base_addr: InstId) -> (out: Result<
        (),
        SemanticError,
    >)
        requires
            old(self).inv(),
            lowerable_init(old(self).kinds(), init_val@),
        ensures
            final(self).lowered_as(
                old(self),
                init_code(old(self).names(), old(self).ctx.func().insts@.len(), init_val@, base_addr),
            ),
            out is Ok,
        decreases init_val,
    {
        let ghost before = *self;
        let ghost names = self.names();
        let ghost n0 = self.ctx.func().insts@.len();
        proof {
            lemma_lowered_as_none(self);
        }
        match &init_val.kind {
            InitValKind::Expr(expr) => {
                let ghost value = expr_code(names, n0, expr@);
                let init_expr_id = match self.visit_expr(expr) {
                    Ok(v) => v,
                    Err(e) => {
                        return Err(e);
                    },
                };
                let ghost prev = *self;
                let ghost view = store(
                    OperandView::Inst(base_addr),
                    init_expr_id@,
                );
                let store_inst = Store { addr: Operand::Inst(base_addr), data: init_expr_id };
                self.emit(InstKind::Store(store_inst), IrTy::Void);
                proof {
                    lemma_lowered_as_trans(&before, &before, &prev, Seq::empty(), value.0);
                    lemma_lowered_as_trans(&before, &prev, self, value.0, seq![view]);
                    assert(Seq::<InstView>::empty() + value.0 =~= value.0);
                    assert(value.0 + seq![view] =~= value.0.push(view));
                }
            },
            InitValKind::ArrayVal(array_vals) => {
                let ghost views = init_vals_view(*array_vals);
                let ghost ty = init_val@.ty;
                let ghost mut code: Seq<InstView> = Seq::empty();
                proof {
                    lemma_init_vals_view(*array_vals);
                    assert(code + inits_code(names, n0, ty, views, base_addr, 0) =~= inits_code(
                        names,
                        n0,
                        ty,
                        views,
                        base_addr,
                        0,
                    ));
                }
                let mut idx: usize = 0;
                while idx < array_vals.len()
                    invariant
                        idx <= array_vals.len(),
                        self.lowered_as(&before, code),
                        inits_code(names, n0, ty, views, base_addr, 0) == code + inits_code(
                            names,
                            n0 + code.len(),
                            ty,
                            views,
                            base_addr,
                            idx as nat,
                        ),
                    decreases array_vals.len() - idx,
                {
                    let ghost prev = *self;
                    proof {
                        assert(views[idx as int] == array_vals@[idx as int]@);
                        assert(decreases_to!(array_vals => array_vals[idx as int]));
                        lemma_lowered_as_none(&before);
                        lemma_lowered_as_trans(&before, &before, &prev, Seq::empty(), code);
                    }
                    let ir_ty = IrTy::from_ast(&init_val.ty);
                    let elem_ty = match &ir_ty {
                        IrTy::Array(_, elem_ty) => IrTy::ptr_of(elem_ty),
                        _ => {
                            proof {
                                if ir_ty is Func {
                                    assert(ir_ty->Func_0@ is Func);
                                }
                            }
                            unreached()
                        },
                    };
                    let mut indices: Vec<Operand> = Vec::new();
                    indices.push(Operand::from_i32(0));
                    indices.push(Operand::from_i32(idx as i32));
                    let ghost gep_view = InstView {
                        kind: InstKindView::GEP {
                            ptr: OperandView::Inst(base_addr),
                            indices: seq![
                                zero_view(),
                                OperandView::Const(
                                    ConstantView::Int(idx as i32),
                                ),
                            ],
                        },
                        ty: elem_ptr(ty),
                    };
                    proof {
                        assert(operands_view(indices) =~= seq![
                            zero_view(),
                            OperandView::Const(
                                ConstantView::Int(idx as i32),
                            ),
                        ]);
                    }
                    let gep_inst = GEP { ptr: Operand::Inst(base_addr), indices };
                    let gep_inst_id = self.emit(InstKind::GEP(gep_inst), elem_ty);
                    let ghost mid = *self;
                    let ghost elem_code = init_code(
                        names,
                        n0 + code.len() + 1,
                        views[idx as int],
                        gep_inst_id,
                    );
                    proof {
                        lemma_lowered_as_trans(&before, &prev, &mid, code, seq![gep_view]);
                    }
                    match self.build_decl_init_val(&array_vals[idx], gep_inst_id) {
                        Ok(_) => {},
                        Err(e) => {
                            return Err(e);
                        },
                    }
                    proof {
                        lemma_lowered_as_trans(&before, &mid, self, code + seq![gep_view], elem_code);
                        let rest = inits_code(
                            names,
                            n0 + code.len() + 1 + elem_code.len(),
                            ty,
                            views,
                            base_addr,
                            (idx + 1) as nat,
                        );
                        assert(code + (seq![gep_view] + elem_code + rest) =~= ((code + seq![
                            gep_view,
                        ]) + elem_code) + rest);
                        code = (code + seq![gep_view]) + elem_code;
                    }
                    idx += 1;
                }
                proof {
                    assert(code + Seq::<InstView>::empty() =~= code);
                }
            },
            InitValKind::Const(_) => unreached(),
        }
        Ok(())
    }

    /// The builder stores initializers where it lowers the declaration;
    /// on its own an initializer lowers to nothing.
    pub fn visit_init_val(&mut self, _init_val: &InitVal) -> (out: Result<(), SemanticError>)
        ensures
            *final(self) == *old(self),
            out is Ok,
    {
        Ok(())
    }

    /// Lowers one declared name of a local declaration: memory on the
    /// stack, the name bound to its address, then the initializer.
    pub fn visit_local(&mut self, sub_decl: &SubDecl) -> (out: Result<(), SemanticError>)
        requires
            old(self).inv(),
            lowerable_local(old(self).kinds(), sub_decl@),
        ensures
            final(self).inv(),
            final(self).decl_step(old(self)),
            final(self).kinds() == declare_kind(old(self).kinds(), sub_decl@.ident.name, Kind::Var),
            final(self).state() == lower_local(old(self).rets(), old(self).state(), sub_decl@),
            final(self).rets() == old(self).rets(),
            out is Ok,
    {
        let ghost before = *self;
        let ty = IrTy::from_ast(&sub_decl.ty);
        let alloca_inst = Alloca { alloca_ty: ty.clone() };
        let alloca_addr = self.emit(InstKind::Alloca(alloca_inst), IrTy::ptr_of(&ty));
        proof {
            lemma_lowered_as_state(&before, self, seq![alloca(lower_ty(sub_decl@.ty))]);
            assert(before.ctx.func().insts.len() == before.ctx.func().insts@.len());
        }
        self.bind(sub_decl.ident.name.as_str(), IdInfo::Inst(alloca_addr));
        let ghost mid = *self;
        if let Some(init_val) = &sub_decl.init_val {
            match self.build_decl_init_val(init_val, alloca_addr) {
                Ok(_) => {},
                Err(e) => {
                    return Err(e);
                },
            }
            proof {
                lemma_extended_trans(
                    before.ctx.func(),
                    mid.ctx.func(),
                    self.ctx.func(),
                    before.ctx.cur_bb,
                );
                lemma_lowered_as_state(
                    &mid,
                    self,
                    init_code(mid.names(), mid.ctx.func().insts@.len(), init_val@, alloca_addr),
                );
                assert(mid.state().insts.len() == mid.ctx.func().insts@.len());
            }
        }
        Ok(())
    }

    /// Lowers a local declaration, one name after the other.
    pub fn visit_decl_stmt(&mut self, decl: &Decl) -> (out: Result<(), SemanticError>)
        requires
            old(self).inv(),
            lowerable_locals(old(self).kinds(), decl@.sub_decls, 0),
        ensures
            final(self).inv(),
            final(self).decl_step(old(self)),
            final(self).kinds() == kinds_after_decls(old(self).kinds(), decl@.sub_decls, 0),
            final(self).state() == lower_locals(
                old(self).rets(),
                old(self).state(),
                decl@.sub_decls,
                0,
            ),
            final(self).rets() == old(self).rets(),
            out is Ok,
    {
        let ghost before = *self;
        let ghost views = decl@.sub_decls;
        let mut i: usize = 0;
        proof {
            lemma_extended_refl(self.ctx.func(), self.ctx.cur_bb);
        }
        while i < decl.sub_decls.len()
            invariant
                i <= decl.sub_decls.len(),
                views == sub_decls_view(decl.sub_decls),
                self.inv(),
                self.decl_step(&before),
                lowerable_locals(self.kinds(), views, i as nat),
                kinds_after_decls(before.kinds(), views, 0) == kinds_after_decls(
                    self.kinds(),
                    views,
                    i as nat,
                ),
                self.rets() == before.rets(),
                lower_locals(before.rets(), before.state(), views, 0) == lower_locals(
                    before.rets(),
                    self.state(),
                    views,
                    i as nat,
                ),
            decreases decl.sub_decls.len() - i,
        {
            let ghost prev = *self;
            proof {
                assert(views[i as int] == decl.sub_decls@[i as int]@);
            }
            match self.visit_local(&decl.sub_decls[i]) {
                Ok(_) => {},
                Err(e) => {
                    return Err(e);
                },
            }
            proof {
                lemma_extended_trans(
                    before.ctx.func(),
                    prev.ctx.func(),
                    self.ctx.func(),
                    before.ctx.cur_bb,
                );
            }
            i += 1;
        }
        Ok(())
    }

    /// Lowers a block in a scope of its own.
    pub fn visit_block_stmt(&mut self, stmt: &BlockStmt) -> (out: Result<(), SemanticError>)
        requires
            old(self).inv(),
            lowerable_block(old(self).kinds(), stmt@),
        ensures
            match items_error(old(self).loop_targets@.len(), stmt@.block_items, 0) {
                Some(err) => out matches Err(e) && e@ == err,
                None => {
                    &&& out is Ok
                    &&& final(self).inv()
                    &&& final(self).stmt_step(old(self))
                    &&& final(self).rets() == old(self).rets()
                    &&& lower_block(old(self).rets(), old(self).state(), stmt@) == Ok::<
                        FuncState,
                        ErrorView,
                    >(final(self).state())
                },
            },
        decreases stmt, 1nat,
    {
        let ghost before = *self;
        let ghost items = stmt@.block_items;
        let ghost depth = self.loop_targets@.len();
        proof {
            lemma_map_push(self.ctx.scope_builder@, |info: IdInfo| kind_of(info));
            lemma_block_items_view(stmt.block_items);
            lemma_extended_is_lowered(self.ctx.func(), self.ctx.func(), self.ctx.cur_bb);
        }
        self.ctx.scope_builder.push_scope();
        proof {
            assert(self.funcs_known()) by {
                assert forall|s: int, name: Seq<char>|
                    0 <= s < self.ctx.scope_builder@.len() && (
                    #[trigger] self.ctx.scope_builder@[s].contains_key(name))
                        && self.ctx.scope_builder@[s][name] is Func implies self.ctx.scope_builder@[s][name]->Func_0.0
                    < self.ctx.cur_module.funcs@.len() by {
                    if s < before.ctx.scope_builder@.len() {
                        assert(before.ctx.scope_builder@[s].contains_key(name));
                    }
                }
            }
        }
        let mut i: usize = 0;
        while i < stmt.block_items.len()
            invariant
                i <= stmt.block_items.len(),
                items == block_items_view(stmt.block_items),
                items == stmt@.block_items,
                before == *old(self),
                depth == before.loop_targets@.len(),
                before.inv(),
                self.inv(),
                self.same_outside(&before),
                self.ctx.scope_builder@.len() == before.ctx.scope_builder@.len() + 1,
                self.ctx.scope_builder@.drop_last() == before.ctx.scope_builder@,
                self.ctx.func().lowered_from(before.ctx.func(), before.ctx.cur_bb, self.ctx.cur_bb),
                lowerable_items(self.kinds(), items, i as nat),
                items_error(depth, items, 0) == items_error(depth, items, i as nat),
                self.rets() == before.rets(),
                lower_items(before.rets(), before.state().with_scope(), items, 0) == lower_items(
                    before.rets(),
                    self.state(),
                    items,
                    i as nat,
                ),
            decreases stmt.block_items.len() - i,
        {
            let ghost prev = *self;
            proof {
                lemma_block_items_view(stmt.block_items);
                assert(items[i as int] == stmt.block_items@[i as int]@);
                assert(decreases_to!(stmt.block_items => stmt.block_items[i as int]));
                assert(lowerable_item(prev.kinds(), items[i as int]));
            }
            match &stmt.block_items[i] {
                BlockItem::Stmt(x) => {
                    proof {
                        assert(items[i as int] == BlockItemView::Stmt(x@));
                        assert(prev.loop_targets@.len() == depth);
                    }
                    match self.visit_stmt(x) {
                        Ok(_) => {},
                        Err(e) => {
                            return Err(e);
                        },
                    }
                    proof {
                        lemma_lowered_trans(
                            before.ctx.func(),
                            prev.ctx.func(),
                            self.ctx.func(),
                            before.ctx.cur_bb,
                            prev.ctx.cur_bb,
                            self.ctx.cur_bb,
                        );
                        assert(lower_item(before.rets(), prev.state(), items[i as int]) == Ok::<
                            FuncState,
                            ErrorView,
                        >(self.state()));
                    }
                },
                BlockItem::Decl(x) => {
                    proof {
                        assert(items[i as int] == BlockItemView::Decl(x@));
                    }
                    match self.visit_decl_stmt(x) {
                        Ok(_) => {},
                        Err(e) => {
                            return Err(e);
                        },
                    }
                    proof {
                        lemma_extended_is_lowered(prev.ctx.func(), self.ctx.func(), prev.ctx.cur_bb);
                        lemma_lowered_trans(
                            before.ctx.func(),
                            prev.ctx.func(),
                            self.ctx.func(),
                            before.ctx.cur_bb,
                            prev.ctx.cur_bb,
                            self.ctx.cur_bb,
                        );
                        assert(self.ctx.scope_builder@.drop_last() == before.ctx.scope_builder@);
                        assert(x@.sub_decls == items[i as int]->Decl_0.sub_decls);
                        assert(lower_item(before.rets(), prev.state(), items[i as int]) == Ok::<
                            FuncState,
                            ErrorView,
                        >(self.state()));
                    }
                },
            }
            i += 1;
        }
        let ghost lowered = *self;
        self.ctx.scope_builder.pop_scope();
        proof {
            assert(self.funcs_known()) by {
                assert forall|s: int, name: Seq<char>|
                    0 <= s < self.ctx.scope_builder@.len() && (
                    #[trigger] self.ctx.scope_builder@[s].contains_key(name))
                        && self.ctx.scope_builder@[s][name] is Func implies self.ctx.scope_builder@[s][name]->Func_0.0
                    < self.ctx.cur_module.funcs@.len() by {
                    assert(before.ctx.scope_builder@[s].contains_key(name));
                }
            }
            assert(self.state() == lowered.state().without_scope());
        }
        Ok(())
    }

    pub fn visit_stmt(&mut self, stmt: &Stmt) -> (out: Result<(), SemanticError>)
        requires
            old(self).inv(),
            lowerable_stmt(old(self).kinds(), stmt@),
        ensures
            match stmt_error(old(self).loop_targets@.len(), stmt@) {
                Some(err) => out matches Err(e) && e@ == err,
                None => {
                    &&& out is Ok
                    &&& final(self).inv()
                    &&& final(self).stmt_step(old(self))
                    &&& final(self).rets() == old(self).rets()
                    &&& lower_stmt(old(self).rets(), old(self).state(), stmt@) == Ok::<
                        FuncState,
                        ErrorView,
                    >(final(self).state())
                },
            },
        decreases stmt, 2nat,
    {
        match stmt {
            Stmt::Expr(x) => self.visit_expr_stmt(x),
            Stmt::Block(x) => self.visit_block_stmt(x),
            Stmt::If(x) => self.visit_if_stmt(x),
            Stmt::While(x) => self.visit_while_stmt(x),
            Stmt::Break(x) => self.visit_break_stmt(*x),
            Stmt::Continue(x) => self.visit_continue_stmt(*x),
            Stmt::Return(x) => self.visit_return_stmt(x),
            Stmt::Empty(x) => self.visit_empty_stmt(*x),
        }
    }

    pub fn visit_expr_stmt(&mut self, stmt: &Expr) -> (out: Result<(), SemanticError>)
        requires
            old(self).inv(),
            lowerable_expr(old(self).kinds(), stmt@),
        ensures
            out is Ok,
            final(self).inv(),
            final(self).expr_step(old(self)),
            final(self).stmt_step(old(self)),
            final(self).rets() == old(self).rets(),
            final(self).state() == lower_expr_stmt(old(self).rets(), old(self).state(), stmt@),
    {
        match self.visit_expr(stmt) {
            Ok(_) => {},
            Err(e) => {
                return Err(e);
            },
        }
        proof {
            lemma_extended_is_lowered(
                old(self).ctx.func(),
                self.ctx.func(),
                old(self).ctx.cur_bb,
            );
            lemma_lowered_as_state(
                old(self),
                self,
                expr_code(old(self).names(), old(self).ctx.func().insts@.len(), stmt@).0,
            );
            assert(old(self).state().insts.len() == old(self).ctx.func().insts@.len());
        }
        Ok(())
    }

    pub fn visit_empty_stmt(&mut self, _span: Span) -> (out: Result<(), SemanticError>)
        requires
            old(self).inv(),
        ensures
            *final(self) == *old(self),
            final(self).stmt_step(old(self)),
            out is Ok,
    {
        proof {
            lemma_extended_is_lowered(self.ctx.func(), self.ctx.func(), self.ctx.cur_bb);
        }
        Ok(())
    }

    /// Ends the block under the cursor with `inst_kind` and moves the
    /// cursor into a new block right after it, so that what follows has a
    /// place to go.
    pub fn leave(&mut self, inst_kind: InstKind)
        requires
            old(self).inv(),
            inst_kind.is_terminator(),
            inst_kind.targets_within(old(self).ctx.func().blocks@.len() as int),
        ensures
            final(self).inv(),
            final(self).stmt_step(old(self)),
            final(self).ctx.scope_builder == old(self).ctx.scope_builder,
            final(self).ctx.cur_bb.0 == old(self).ctx.func().blocks@.len(),
            final(self).ctx.func().blocks@.len() == old(self).ctx.func().blocks@.len() + 1,
            final(self).ctx.func().insts@.len() == old(self).ctx.func().insts@.len() + 1,
            final(self).ctx.func().insts@.last().kind == inst_kind,
            final(self).ctx.func().blocks@[old(self).ctx.cur_bb.0 as int].insts@ == old(self).ctx.func().blocks@[old(self).ctx.cur_bb.0 as int].insts@.push(
                InstId(old(self).ctx.func().insts@.len() as usize),
            ),
            final(self).ctx.func().blocks@.last().insts@.len() == 0,
            final(self).rets() == old(self).rets(),
            final(self).state() == old(self).state().left_with(
                (Inst { kind: inst_kind, ty: IrTy::Void })@,
            ),
    {
        let ghost before = *self;
        let cur = self.ctx.get_cur_bb_id();
        self.terminate(inst_kind, cur);
        let ghost mid = *self;
        let nxt_bb = self.new_block();
        self.ctx.set_cur_bb(nxt_bb);
        proof {
            lemma_grown_trans(before.ctx.func(), mid.ctx.func(), self.ctx.func());
            assert(self.ctx.func().blocks@.drop_last()[cur.0 as int] == self.ctx.func().blocks@[cur.0 as int]);
            assert(before.ctx.func().insts.len() == before.ctx.func().insts@.len());
            assert(before.ctx.func().blocks.len() == before.ctx.func().blocks@.len());
        }
    }

    /// Lowers `break`: a jump to the block after the innermost loop.
    pub fn visit_break_stmt(&mut self, _span: Span) -> (out: Result<(), SemanticError>)
        requires
            old(self).inv(),
        ensures
            match stmt_error(old(self).loop_targets@.len(), StmtView::Break(_span)) {
                Some(err) => out matches Err(e) && e@ == err,
                None => {
                    &&& out is Ok
                    &&& final(self).inv()
                    &&& final(self).stmt_step(old(self))
                    &&& final(self).ctx.func().insts@.last().kind == InstKind::Br(
                        Br::Jump { nxt_bb: old(self).loop_targets@.last().break_target },
                    )
                    &&& final(self).rets() == old(self).rets()
                    &&& final(self).state() == old(self).state().left_with(
                        jump(old(self).loop_targets@.last().break_target),
                    )
                },
            },
            out is Err ==> *final(self) == *old(self),
    {
        let break_target = match self.get_break_target() {
            Some(target) => target,
            None => {
                return Err(SemanticError::BreakOutsideLoop);
            },
        };
        self.leave(InstKind::Br(Br::Jump { nxt_bb: break_target }));
        Ok(())
    }

    /// Lowers `continue`: a jump to the block that evaluates the condition
    /// of the innermost loop.
    pub fn visit_continue_stmt(&mut self, _span: Span) -> (out: Result<(), SemanticError>)
        requires
            old(self).inv(),
        ensures
            match stmt_error(old(self).loop_targets@.len(), StmtView::Continue(_span)) {
                Some(err) => out matches Err(e) && e@ == err,
                None => {
                    &&& out is Ok
                    &&& final(self).inv()
                    &&& final(self).stmt_step(old(self))
                    &&& final(self).ctx.func().insts@.last().kind == InstKind::Br(
                        Br::Jump { nxt_bb: old(self).loop_targets@.last().continue_target },
                    )
                    &&& final(self).rets() == old(self).rets()
                    &&& final(self).state() == old(self).state().left_with(
                        jump(old(self).loop_targets@.last().continue_target),
                    )
                },
            },
            out is Err ==> *final(self) == *old(self),
    {
        let continue_target = match self.get_continue_target() {
            Some(target) => target,
            None => {
                return Err(SemanticError::ContinueOutsideLoop);
            },
        };
        self.leave(InstKind::Br(Br::Jump { nxt_bb: continue_target }));
        Ok(())
    }

    /// Lowers `return`: the value, if there is one, then the return.
    pub fn visit_return_stmt(&mut self, stmt: &ReturnStmt) -> (out: Result<(), SemanticError>)
        requires
            old(self).inv(),
            lowerable_stmt(old(self).kinds(), StmtView::Return(stmt@)),
        ensures
            out is Ok,
            final(self).inv(),
            final(self).stmt_step(old(self)),
            final(self).ctx.func().insts@.len() > 0,
            final(self).ctx.func().insts@.last().kind matches InstKind::RetInst(r) && (r.val is Some
                <==> stmt.val is Some),
            final(self).rets() == old(self).rets(),
            lower_stmt(old(self).rets(), old(self).state(), StmtView::Return(stmt@)) == Ok::<
                FuncState,
                ErrorView,
            >(final(self).state()),
    {
        let ghost before = *self;
        let val = match &stmt.val {
            Some(val) => match self.visit_expr(val) {
                Ok(v) => Some(v),
                Err(e) => {
                    return Err(e);
                },
            },
            None => None,
        };
        let ghost mid = *self;
        proof {
            lemma_extended_is_lowered(before.ctx.func(), mid.ctx.func(), before.ctx.cur_bb);
            if stmt.val is Some {
                lemma_lowered_as_state(
                    &before,
                    &mid,
                    expr_code(
                        before.names(),
                        before.ctx.func().insts@.len(),
                        stmt.val->Some_0@,
                    ).0,
                );
                assert(before.state().insts.len() == before.ctx.func().insts@.len());
            }
        }
        self.leave(InstKind::RetInst(RetInst { val }));
        proof {
            lemma_lowered_trans(
                before.ctx.func(),
                mid.ctx.func(),
                self.ctx.func(),
                before.ctx.cur_bb,
                mid.ctx.cur_bb,
                self.ctx.cur_bb,
            );
        }
        Ok(())
    }
}

} // verus!
