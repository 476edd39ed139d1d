use vstd::pervasive::unreached;
use vstd::prelude::*;

use crate::ast::{
    AssignExpr, AstTy, BinaryExpr, CallExpr, Expr, LiteralExpr, LiteralKind, Subs, UnaryExpr,
    UnaryOp,
};
use crate::ast_view::{exprs_view, lemma_exprs_view, opt_subs_view, ExprView};
use crate::collect::{all_ok, try_collect};
use crate::context::IdInfo;
use crate::err::SemanticError;
use crate::ir::constant::Constant;
use crate::ir::inst::{
    Binary, BinaryInstOp, Call, GEP, Inst, InstKind, InstKindView, InstView, Load, Operand,
    OperandView, Store, ZExt, operands_view,
};
use crate::ir::ty::{IrTy, IrTyView, lower_ty};
use crate::ir_builder::{
    IrBuilder, lemma_coded_trans, lemma_lowered_as_none, lemma_lowered_as_trans,
};
use crate::ir_builder::expr_code::{
    args_code, assign_code, binary_code, call_code, expr_code, exprs_code,
    lemma_array_argument_decays, place_code, ptr_view, unary_code, zero_view,
};
use crate::ir_builder::invariants::{kind_of, lowerable_expr, lowerable_lval};
use crate::scope::{lemma_find_witness, lemma_map_find};

verus! {

impl IrBuilder {
    /// Lowers an expression: its instructions are added to the block under
    /// the cursor, and the operand that holds its value is handed back.
    pub fn visit_expr(&mut self, expr: &Expr) -> (out: Result<Operand, SemanticError>)
        requires
            old(self).inv(),
            lowerable_expr(old(self).kinds(), expr@),
        ensures
            final(self).lowered_as(
                old(self),
                expr_code(old(self).names(), old(self).ctx.func().insts@.len(), expr@).0,
            ),
            out matches Ok(op) && op@ == expr_code(
                old(self).names(),
                old(self).ctx.func().insts@.len(),
                expr@,
            ).1,
        decreases expr, 1nat,
    {
        match expr {
            Expr::LVal(_) => self.visit_lexpr(expr, false),
            Expr::Assign(x) => self.visit_assign_expr(x),
            Expr::Literal(x) => {
                proof {
                    lemma_lowered_as_none(self);
                }
                self.visit_literal_expr(x)
            },
            Expr::Unary(x) => self.visit_unary_expr(x),
            Expr::Binary(x) => self.visit_binary_expr(x),
            Expr::Call(x) => self.visit_call_expr(x),
        }
    }

    /// Lowers a use of a place. An array is never loaded: a use of an
    /// array, like a use that is written to, yields the address.
    #[verifier::loop_isolation(false)]
    pub fn visit_lexpr(&mut self, expr: &Expr, is_lvalue: bool) -> (out: Result<
        Operand,
        SemanticError,
    >)
        requires
            old(self).inv(),
            expr@ is LVal,
            lowerable_expr(old(self).kinds(), expr@),
        ensures
            final(self).lowered_as(
                old(self),
                place_code(
                    old(self).names(),
                    old(self).ctx.func().insts@.len(),
                    expr@->LVal_0,
                    is_lvalue,
                ).0,
            ),
            out matches Ok(op) && op@ == place_code(
                old(self).names(),
                old(self).ctx.func().insts@.len(),
                expr@->LVal_0,
                is_lvalue,
            ).1,
        decreases expr, 0nat,
    {
        let lval = match expr {
            Expr::LVal(lval) => lval,
            _ => unreached(),
        };
        let ghost names = self.names();
        let ghost n0 = self.ctx.func().insts@.len();
        proof {
            lemma_map_find(self.ctx.scope_builder@, |info: IdInfo| kind_of(info), lval.ident.name@);
            assert(expr@ == ExprView::LVal(lval@));
            assert(lowerable_lval(self.kinds(), lval@));
            assert(lval@.subs == opt_subs_view(lval.subs));
            assert(lval.subs is Some ==> lval@.subs == Some(lval.subs->Some_0@));
            assert(lval.subs is Some ==> lval@.subs->Some_0.subs == exprs_view(
                lval.subs->Some_0.subs,
            ));
            lemma_lowered_as_none(self);
        }
        let ty = IrTy::from_ast(&lval.ty);
        let info = match self.ctx.scope_builder.find_name_rec(lval.ident.name.as_str()) {
            Some(info) => *info,
            None => unreached(),
        };
        let base = Operand::from_id(info);
        let mut addr = Operand::from_id(info);
        let ghost before = *self;
        let ghost mut code: Seq<InstView> = Seq::empty();

        if let Some(Subs { subs, .. }) = &lval.subs {
            let ghost views = exprs_view(*subs);
            proof {
                lemma_exprs_view(*subs);
            }
            let mut indices: Vec<Operand> = Vec::new();
            if !matches!(addr, Operand::Param(_)) {
                indices.push(Operand::from_i32(0));
            }
            let ghost lead = operands_view(indices);
            let ghost mut done: Seq<OperandView> = Seq::empty();
            proof {
                assert(lead =~= if base@ is Param {
                    Seq::empty()
                } else {
                    seq![zero_view()]
                });
                assert(operands_view(indices) =~= lead + done);
                assert(code + exprs_code(names, n0, views, 0).0 =~= exprs_code(names, n0, views, 0).0);
                assert(done + exprs_code(names, n0, views, 0).1 =~= exprs_code(names, n0, views, 0).1);
            }
            let mut i: usize = 0;
            while i < subs.len()
                invariant
                    i <= subs.len(),
                    self.lowered_as(&before, code),
                    operands_view(indices) == lead + done,
                    ({
                        let rest = exprs_code(names, n0 + code.len(), views, i as nat);
                        exprs_code(names, n0, views, 0) == (code + rest.0, done + rest.1)
                    }),
                decreases subs.len() - i,
            {
                let ghost prev = *self;
                proof {
                    assert(views[i as int] == subs@[i as int]@);
                    assert(decreases_to!(subs => subs[i as int]));
                    lemma_lowered_as_none(&before);
                    lemma_lowered_as_trans(&before, &before, &prev, Seq::empty(), code);
                    assert(Seq::<InstView>::empty() + code =~= code);
                    lemma_coded_trans(
                        before.ctx.func(),
                        prev.ctx.func(),
                        prev.ctx.func(),
                        before.ctx.cur_bb,
                        code,
                        Seq::empty(),
                    );
                }
                let idx = match self.visit_expr(&subs[i]) {
                    Ok(idx) => idx,
                    Err(e) => {
                        return Err(e);
                    },
                };
                proof {
                    let step = expr_code(names, n0 + code.len(), views[i as int]);
                    let rest = exprs_code(names, n0 + code.len() + step.0.len(), views, (i + 1) as nat);
                    lemma_lowered_as_trans(&before, &prev, self, code, step.0);
                    assert(code + (step.0 + rest.0) =~= (code + step.0) + rest.0);
                    assert(done + (seq![step.1] + rest.1) =~= done.push(step.1) + rest.1);
                    let old_indices = operands_view(indices);
                    code = code + step.0;
                    done = done.push(step.1);
                }
                let ghost pushed = operands_view(indices).push(idx@);
                indices.push(idx);
                proof {
                    assert(operands_view(indices) =~= pushed);
                    assert(pushed =~= lead + done);
                }
                i += 1;
            }
            let ghost prev = *self;
            let ghost gep_view = InstView {
                kind: InstKindView::GEP { ptr: base@, indices: lead + done },
                ty: ptr_view(lower_ty(lval.ty@)),
            };
            let gep = self.emit(InstKind::GEP(GEP { ptr: addr, indices }), IrTy::ptr_of(&ty));
            proof {
                lemma_lowered_as_trans(&before, &prev, self, code, seq![gep_view]);
                assert(code + seq![gep_view] =~= code.push(gep_view));
                assert(exprs_code(names, n0, views, 0).0 =~= code);
                assert(exprs_code(names, n0, views, 0).1 =~= done);
                code = code.push(gep_view);
            }
            addr = Operand::Inst(gep);
        }
        if is_lvalue || matches!(lval.ty, AstTy::Array { .. }) {
            Ok(addr)
        } else {
            let ghost prev = *self;
            proof {
                assert(!(ty is Array)) by {
                    assert(!(lval.ty@ is Array));
                    if let IrTy::Array(..) = ty {
                        assert(ty@ is Array);
                    }
                }
            }
            let ghost load_view = InstView {
                kind: InstKindView::Load { addr: addr@ },
                ty: lower_ty(lval.ty@),
            };
            let val_id = self.emit(InstKind::Load(Load { addr }), ty);
            proof {
                lemma_lowered_as_trans(&before, &prev, self, code, seq![load_view]);
                assert(code + seq![load_view] =~= code.push(load_view));
            }
            Ok(Operand::Inst(val_id))
        }
    }

    /// Lowers an assignment: the address of the target, the value, then a
    /// store. The value of the assignment is the value stored.
    pub fn visit_assign_expr(&mut self, expr: &AssignExpr) -> (out: Result<Operand, SemanticError>)
        requires
            old(self).inv(),
            lowerable_expr(old(self).kinds(), ExprView::Assign(expr@)),
        ensures
            final(self).lowered_as(
                old(self),
                assign_code(old(self).names(), old(self).ctx.func().insts@.len(), expr@).0,
            ),
            out matches Ok(op) && op@ == assign_code(
                old(self).names(),
                old(self).ctx.func().insts@.len(),
                expr@,
            ).1,
        decreases expr, 0nat,
    {
        let ghost before = *self;
        let ghost names = self.names();
        let ghost n0 = self.ctx.func().insts@.len();
        let ghost target = place_code(names, n0, expr@.lhs->LVal_0, true);
        let ghost value = expr_code(names, n0 + target.0.len(), *expr@.rhs);
        let lval = match self.visit_lexpr(&expr.lhs, true) {
            Ok(v) => v,
            Err(e) => {
                return Err(e);
            },
        };
        let ghost mid = *self;
        proof {
            lemma_lowered_as_none(&before);
            lemma_lowered_as_trans(&before, &before, &mid, Seq::empty(), target.0);
        }
        let rval = match self.visit_expr(&expr.rhs) {
            Ok(v) => v,
            Err(e) => {
                return Err(e);
            },
        };
        let ghost prev = *self;
        let data = rval.clone();
        let ghost store_view = InstView {
            kind: InstKindView::Store { addr: lval@, data: data@ },
            ty: IrTyView::Void,
        };
        let store_inst = Store { addr: lval, data };
        self.emit(InstKind::Store(store_inst), IrTy::Void);
        proof {
            lemma_lowered_as_trans(&before, &mid, &prev, target.0, value.0);
            lemma_lowered_as_trans(&before, &prev, self, target.0 + value.0, seq![store_view]);
            assert((target.0 + value.0) + seq![store_view] =~= (target.0 + value.0).push(store_view));
        }
        Ok(rval)
    }

    /// An integer literal is a constant operand; no instruction is added.
    pub fn visit_literal_expr(&mut self, expr: &LiteralExpr) -> (out: Result<Operand, SemanticError>)
        requires
            expr.kind is Integer,
        ensures
            *final(self) == *old(self),
            out matches Ok(op) && op == Operand::Const(Constant::Int(expr.kind->Integer_0)),
    {
        let constant = match expr.kind {
            LiteralKind::Integer(i) => Operand::Const(Constant::Int(i)),
            _ => unreached(),
        };
        Ok(constant)
    }

    /// Lowers a unary operator: `-x` is `0 - x`, `+x` is `x`, and `!x` is
    /// `x == 0` after a boolean `x` was widened to 32 bits.
    pub fn visit_unary_expr(&mut self, expr: &UnaryExpr) -> (out: Result<Operand, SemanticError>)
        requires
            old(self).inv(),
            lowerable_expr(old(self).kinds(), ExprView::Unary(expr@)),
        ensures
            final(self).lowered_as(
                old(self),
                unary_code(old(self).names(), old(self).ctx.func().insts@.len(), expr@).0,
            ),
            out matches Ok(op) && op@ == unary_code(
                old(self).names(),
                old(self).ctx.func().insts@.len(),
                expr@,
            ).1,
        decreases expr, 0nat,
    {
        let ghost before = *self;
        let ghost names = self.names();
        let ghost n0 = self.ctx.func().insts@.len();
        let ghost sub = expr_code(names, n0, *expr@.sub_expr);
        let mut val = match self.visit_expr(&expr.sub_expr) {
            Ok(v) => v,
            Err(e) => {
                return Err(e);
            },
        };
        let ghost mid = *self;
        proof {
            lemma_lowered_as_none(&before);
            lemma_lowered_as_trans(&before, &before, &mid, Seq::empty(), sub.0);
        }
        match expr.op {
            UnaryOp::Neg => {
                let ghost view = InstView {
                    kind: InstKindView::Binary {
                        op: BinaryInstOp::Sub,
                        left: zero_view(),
                        right: val@,
                    },
                    ty: lower_ty(expr.ty@),
                };
                let inst = Binary { op: BinaryInstOp::Sub, left: Operand::from_i32(0), right: val };
                let sub_inst_id = self.emit(InstKind::Binary(inst), IrTy::from_ast(&expr.ty));
                proof {
                    lemma_lowered_as_trans(&before, &mid, self, sub.0, seq![view]);
                    assert(sub.0 + seq![view] =~= sub.0.push(view));
                }
                Ok(Operand::Inst(sub_inst_id))
            },
            UnaryOp::Pos => Ok(val),
            UnaryOp::Not => {
                let sub_ty = expr.sub_expr.ty();
                let ghost mut code = sub.0;
                if let AstTy::Bool = sub_ty {
                    let ghost view = InstView {
                        kind: InstKindView::ZExt {
                            ori_val: val@,
                            target_ty: IrTyView::Int(32),
                        },
                        ty: IrTyView::Int(32),
                    };
                    let zext_inst = ZExt { ori_val: val, target_ty: IrTy::int32() };
                    let id = self.emit(InstKind::ZExt(zext_inst), IrTy::int32());
                    proof {
                        lemma_lowered_as_trans(&before, &mid, self, sub.0, seq![view]);
                        assert(sub.0 + seq![view] =~= sub.0.push(view));
                        code = sub.0.push(view);
                    }
                    val = Operand::Inst(id);
                }
                let ghost prev = *self;
                let ghost view = InstView {
                    kind: InstKindView::Binary {
                        op: BinaryInstOp::Eq,
                        left: val@,
                        right: zero_view(),
                    },
                    ty: IrTyView::Int(1),
                };
                let inst = Binary { op: BinaryInstOp::Eq, left: val, right: Operand::from_i32(0) };
                let not_inst_id = self.emit(InstKind::Binary(inst), IrTy::int1());
                proof {
                    lemma_lowered_as_trans(&before, &prev, self, code, seq![view]);
                    assert(code + seq![view] =~= code.push(view));
                }
                Ok(Operand::Inst(not_inst_id))
            },
        }
    }

    /// Lowers a binary operator: the left operand, the right operand, then
    /// one instruction of the type of the expression.
    pub fn visit_binary_expr(&mut self, expr: &BinaryExpr) -> (out: Result<Operand, SemanticError>)
        requires
            old(self).inv(),
            lowerable_expr(old(self).kinds(), ExprView::Binary(expr@)),
        ensures
            final(self).lowered_as(
                old(self),
                binary_code(old(self).names(), old(self).ctx.func().insts@.len(), expr@).0,
            ),
            out matches Ok(op) && op@ == binary_code(
                old(self).names(),
                old(self).ctx.func().insts@.len(),
                expr@,
            ).1,
        decreases expr, 0nat,
    {
        let ghost before = *self;
        let ghost names = self.names();
        let ghost n0 = self.ctx.func().insts@.len();
        let ghost left_code = expr_code(names, n0, *expr@.lhs);
        let ghost right_code = expr_code(names, n0 + left_code.0.len(), *expr@.rhs);
        let left = match self.visit_expr(&expr.lhs) {
            Ok(v) => v,
            Err(e) => {
                return Err(e);
            },
        };
        let ghost mid = *self;
        proof {
            lemma_lowered_as_none(&before);
            lemma_lowered_as_trans(&before, &before, &mid, Seq::empty(), left_code.0);
        }
        let right = match self.visit_expr(&expr.rhs) {
            Ok(v) => v,
            Err(e) => {
                return Err(e);
            },
        };
        let ghost prev = *self;
        let op = expr.op.to_binary_inst_kind();
        let ghost view = InstView {
            kind: InstKindView::Binary { op, left: left@, right: right@ },
            ty: lower_ty(expr.ty@),
        };
        let binary_inst = Binary { op, left, right };
        let binary_inst_id = self.emit(InstKind::Binary(binary_inst), IrTy::from_ast(&expr.ty));
        proof {
            lemma_lowered_as_trans(&before, &mid, &prev, left_code.0, right_code.0);
            lemma_lowered_as_trans(
                &before,
                &prev,
                self,
                left_code.0 + right_code.0,
                seq![view],
            );
            assert((left_code.0 + right_code.0) + seq![view] =~= (left_code.0 + right_code.0).push(
                view,
            ));
        }
        Ok(Operand::Inst(binary_inst_id))
    }

    /// Lowers a call. An argument that is an array is passed as the
    /// address of its first element.
    #[verifier::loop_isolation(false)]
    pub fn visit_call_expr(&mut self, expr: &CallExpr) -> (out: Result<Operand, SemanticError>)
        requires
            old(self).inv(),
            lowerable_expr(old(self).kinds(), ExprView::Call(expr@)),
        ensures
            final(self).lowered_as(
                old(self),
                call_code(old(self).names(), old(self).ctx.func().insts@.len(), expr@).0,
            ),
            out matches Ok(op) && op@ == call_code(
                old(self).names(),
                old(self).ctx.func().insts@.len(),
                expr@,
            ).1,
        decreases expr, 0nat,
    {
        let ghost before = *self;
        let ghost names = self.names();
        let ghost n0 = self.ctx.func().insts@.len();
        let ghost views = exprs_view(expr.args);
        proof {
            lemma_map_find(self.ctx.scope_builder@, |info: IdInfo| kind_of(info), expr.func.name@);
            lemma_exprs_view(expr.args);
            lemma_lowered_as_none(self);
        }
        let func_id = match self.ctx.scope_builder.find_name_rec(expr.func.name.as_str()) {
            Some(IdInfo::Func(id)) => *id,
            _ => unreached(),
        };
        proof {
            let s = lemma_find_witness(self.ctx.scope_builder@, expr.func.name@);
            assert(self.ctx.scope_builder@[s].contains_key(expr.func.name@));
        }
        let mut results: Vec<Result<Operand, SemanticError>> = Vec::new();
        let ghost mut code: Seq<InstView> = Seq::empty();
        let ghost mut done: Seq<OperandView> = Seq::empty();
        proof {
            assert(code + args_code(names, n0, views, 0).0 =~= args_code(names, n0, views, 0).0);
            assert(done + args_code(names, n0, views, 0).1 =~= args_code(names, n0, views, 0).1);
        }
        let mut i: usize = 0;
        while i < expr.args.len()
            invariant
                i <= expr.args.len(),
                self.lowered_as(&before, code),
                results@.len() == i,
                done.len() == i,
                all_ok(results@),
                forall|j: int| 0 <= j < i ==> (#[trigger] results@[j])->Ok_0@ == done[j],
                ({
                    let rest = args_code(names, n0 + code.len(), views, i as nat);
                    args_code(names, n0, views, 0) == (code + rest.0, done + rest.1)
                }),
            decreases expr.args.len() - i,
        {
            let ghost prev = *self;
            proof {
                assert(views[i as int] == expr.args@[i as int]@);
                assert(decreases_to!(expr.args => expr.args[i as int]));
                lemma_lowered_as_none(&before);
                lemma_lowered_as_trans(&before, &before, &prev, Seq::empty(), code);
            }
            let ghost step = expr_code(names, n0 + code.len(), views[i as int]);
            proof {
                lemma_array_argument_decays(names, n0 + code.len(), views[i as int]);
            }
            let arg = match self.visit_expr(&expr.args[i]) {
                Ok(v) => v,
                Err(e) => {
                    return Err(e);
                },
            };
            let ghost mid = *self;
            let ghost mut arg_code = step.0;
            proof {
                lemma_lowered_as_trans(&before, &prev, &mid, code, step.0);
            }
            let arg_ty = expr.args[i].ty();
            let passed = match arg_ty {
                AstTy::Array { elem_ty, .. } => {
                    let mut indices: Vec<Operand> = Vec::new();
                    indices.push(Operand::from_i32(0));
                    indices.push(Operand::from_i32(0));
                    proof {
                        assert(operands_view(indices) =~= seq![zero_view(), zero_view()]);
                        assert(arg_ty@.known());
                    }
                    let elem = IrTy::from_ast(&elem_ty);
                    let ghost view = InstView {
                        kind: InstKindView::GEP {
                            ptr: arg@,
                            indices: seq![zero_view(), zero_view()],
                        },
                        ty: ptr_view(lower_ty(elem_ty@)),
                    };
                    let gep_id = self.emit(
                        InstKind::GEP(GEP { ptr: arg, indices }),
                        IrTy::ptr_of(&elem),
                    );
                    proof {
                        lemma_lowered_as_trans(&before, &mid, self, code + step.0, seq![view]);
                        assert((code + step.0) + seq![view] =~= code + step.0.push(view));
                        arg_code = step.0.push(view);
                    }
                    Operand::Inst(gep_id)
                },
                _ => {
                    proof {
                        assert(!(views[i as int].ty() is Array));
                    }
                    arg
                },
            };
            proof {
                let rest = args_code(names, n0 + code.len() + arg_code.len(), views, (i + 1) as nat);
                assert(code + (arg_code + rest.0) =~= (code + arg_code) + rest.0);
                assert(done + (seq![passed@] + rest.1) =~= done.push(passed@) + rest.1);
                code = code + arg_code;
                done = done.push(passed@);
            }
            results.push(Ok(passed));
            i += 1;
        }
        let ghost gathered = results@;
        let args = match try_collect(results) {
            Ok(args) => args,
            Err(e) => {
                return Err(e);
            },
        };
        let ret_ty = self.ctx.get_func_ty(func_id).ret_ty.clone();
        let ghost prev = *self;
        let ghost view = InstView {
            kind: InstKindView::Call { func_id, args: done },
            ty: names.rets[func_id.0 as int],
        };
        proof {
            assert(operands_view(args) =~= done) by {
                assert forall|j: int| 0 <= j < done.len() implies operands_view(args)[j] == done[j] by {
                    assert(args@[j] == gathered[j]->Ok_0);
                }
            }
            assert(prev.names() == names);
            assert(args_code(names, n0, views, 0).0 =~= code);
            assert(args_code(names, n0, views, 0).1 =~= done);
        }
        let call_inst = Call { func_id, args };
        let call_inst_id = self.emit(InstKind::Call(call_inst), ret_ty);
        proof {
            lemma_lowered_as_trans(&before, &prev, self, code, seq![view]);
            assert(code + seq![view] =~= code.push(view));
        }
        Ok(Operand::Inst(call_inst_id))
    }
}

} // verus!
