use vstd::prelude::*;

use crate::ast::BinaryOp;
use crate::ir::arena::{BBId, FuncId, GlobalId, InstId, ParamId};
use crate::ir::constant::{Constant, ConstantView};
use crate::ir::ty::{IrTy, IrTyView};

verus! {

#[derive(Debug, Clone, Copy, PartialEq, Eq, Structural)]
pub enum BinaryInstOp {
    Add,
    Sub,
    Mul,
    Div,
    Mod,
    Lt,
    Le,
    Gt,
    Ge,
    Eq,
    Ne,
    And,
    Or,
}

/// What an instruction works on: the result of an instruction, a parameter,
/// a global, a constant, or the label of a block.
#[derive(Debug)]
pub enum Operand {
    Inst(InstId),
    Param(ParamId),
    Global(GlobalId),
    Const(Constant),
    BB(BBId),
}

pub enum OperandView {
    Inst(InstId),
    Param(ParamId),
    Global(GlobalId),
    Const(ConstantView),
    BB(BBId),
}

pub enum BrView {
    Br { cond: OperandView, true_bb: BBId, false_bb: BBId },
    Jump { nxt_bb: BBId },
}

pub enum InstKindView {
    Alloca { alloca_ty: IrTyView },
    Binary { op: BinaryInstOp, left: OperandView, right: OperandView },
    Br(BrView),
    Call { func_id: FuncId, args: Seq<OperandView> },
    GEP { ptr: OperandView, indices: Seq<OperandView> },
    Load { addr: OperandView },
    RetInst { val: Option<OperandView> },
    Store { addr: OperandView, data: OperandView },
    ZExt { ori_val: OperandView, target_ty: IrTyView },
}

pub struct InstView {
    pub kind: InstKindView,
    pub ty: IrTyView,
}

/// Reserves memory for one value of `alloca_ty`; its result is the address.
#[derive(Debug)]
pub struct Alloca {
    pub alloca_ty: IrTy,
}

#[derive(Debug)]
pub struct Binary {
    pub op: BinaryInstOp,
    pub left: Operand,
    pub right: Operand,
}

/// A branch: on a condition to one of two blocks, or to one block always.
#[derive(Debug)]
pub enum Br {
    Br { cond: Operand, true_bb: BBId, false_bb: BBId },
    Jump { nxt_bb: BBId },
}

#[derive(Debug)]
pub struct Call {
    pub func_id: FuncId,
    pub args: Vec<Operand>,
}

/// Computes an address from a pointer and a chain of indices, without
/// reading memory.
#[derive(Debug)]
pub struct GEP {
    pub ptr: Operand,
    pub indices: Vec<Operand>,
}

#[derive(Debug)]
pub struct Load {
    pub addr: Operand,
}

#[derive(Debug)]
pub struct RetInst {
    pub val: Option<Operand>,
}

#[derive(Debug)]
pub struct Store {
    pub addr: Operand,
    pub data: Operand,
}

/// Widens an integer to `target_ty`, filling with zeros.
#[derive(Debug)]
pub struct ZExt {
    pub ori_val: Operand,
    pub target_ty: IrTy,
}

#[derive(Debug)]
pub enum InstKind {
    Alloca(Alloca),
    Binary(Binary),
    Br(Br),
    Call(Call),
    GEP(GEP),
    Load(Load),
    RetInst(RetInst),
    Store(Store),
    ZExt(ZExt),
}

/// An instruction and the type of its result.
#[derive(Debug)]
pub struct Inst {
    pub kind: InstKind,
    pub ty: IrTy,
}

/// The instruction operator that a binary operator of the source language
/// is lowered to.
pub open spec fn lower_op(op: BinaryOp) -> BinaryInstOp {
    match op {
        BinaryOp::Add => BinaryInstOp::Add,
        BinaryOp::Sub => BinaryInstOp::Sub,
        BinaryOp::Mul => BinaryInstOp::Mul,
        BinaryOp::Div => BinaryInstOp::Div,
        BinaryOp::Mod => BinaryInstOp::Mod,
        BinaryOp::Lt => BinaryInstOp::Lt,
        BinaryOp::Le => BinaryInstOp::Le,
        BinaryOp::Gt => BinaryInstOp::Gt,
        BinaryOp::Ge => BinaryInstOp::Ge,
        BinaryOp::Eq => BinaryInstOp::Eq,
        BinaryOp::Ne => BinaryInstOp::Ne,
        BinaryOp::And => BinaryInstOp::And,
        BinaryOp::Or => BinaryInstOp::Or,
    }
}

impl BinaryOp {
    pub fn to_binary_inst_kind(&self) -> (out: BinaryInstOp)
        ensures
            out == lower_op(*self),
    {
        match self {
            BinaryOp::Add => BinaryInstOp::Add,
            BinaryOp::Sub => BinaryInstOp::Sub,
            BinaryOp::Mul => BinaryInstOp::Mul,
            BinaryOp::Div => BinaryInstOp::Div,
            BinaryOp::Mod => BinaryInstOp::Mod,
            BinaryOp::Lt => BinaryInstOp::Lt,
            BinaryOp::Le => BinaryInstOp::Le,
            BinaryOp::Gt => BinaryInstOp::Gt,
            BinaryOp::Ge => BinaryInstOp::Ge,
            BinaryOp::Eq => BinaryInstOp::Eq,
            BinaryOp::Ne => BinaryInstOp::Ne,
            BinaryOp::And => BinaryInstOp::And,
            BinaryOp::Or => BinaryInstOp::Or,
        }
    }
}

impl Operand {
    pub open spec fn view(&self) -> OperandView {
        match self {
            Operand::Inst(id) => OperandView::Inst(*id),
            Operand::Param(id) => OperandView::Param(*id),
            Operand::Global(id) => OperandView::Global(*id),
            Operand::Const(c) => OperandView::Const(c@),
            Operand::BB(id) => OperandView::BB(*id),
        }
    }

    /// The operand of a constant integer.
    pub fn from_i32(value: i32) -> (out: Operand)
        ensures
            out == Operand::Const(Constant::Int(value)),
    {
        Operand::Const(Constant::Int(value))
    }
}

/// The views of a vector of operands.
pub open spec fn operands_view(operands: Vec<Operand>) -> Seq<OperandView> {
    Seq::new(operands@.len(), |i: int| operands@[i]@)
}

impl Br {
    pub open spec fn view(&self) -> BrView {
        match self {
            Br::Br { cond, true_bb, false_bb } => BrView::Br {
                cond: cond@,
                true_bb: *true_bb,
                false_bb: *false_bb,
            },
            Br::Jump { nxt_bb } => BrView::Jump { nxt_bb: *nxt_bb },
        }
    }
}

impl Inst {
    pub open spec fn view(&self) -> InstView {
        InstView { kind: self.kind@, ty: self.ty@ }
    }
}

/// The views of a sequence of instructions.
pub open spec fn insts_view(insts: Seq<Inst>) -> Seq<InstView> {
    Seq::new(insts.len(), |i: int| insts[i]@)
}

impl Clone for Operand {
    fn clone(&self) -> (out: Self)
        ensures
            out@ == self@,
    {
        match self {
            Operand::Inst(id) => Operand::Inst(*id),
            Operand::Param(id) => Operand::Param(*id),
            Operand::Global(id) => Operand::Global(*id),
            Operand::Const(c) => Operand::Const(c.clone()),
            Operand::BB(id) => Operand::BB(*id),
        }
    }
}

impl InstKind {
    pub open spec fn view(&self) -> InstKindView {
        match self {
            InstKind::Alloca(a) => InstKindView::Alloca { alloca_ty: a.alloca_ty@ },
            InstKind::Binary(b) => InstKindView::Binary { op: b.op, left: b.left@, right: b.right@ },
            InstKind::Br(b) => InstKindView::Br(b@),
            InstKind::Call(c) => InstKindView::Call {
                func_id: c.func_id,
                args: operands_view(c.args),
            },
            InstKind::GEP(g) => InstKindView::GEP { ptr: g.ptr@, indices: operands_view(g.indices) },
            InstKind::Load(l) => InstKindView::Load { addr: l.addr@ },
            InstKind::RetInst(r) => InstKindView::RetInst {
                val: match r.val {
                    Some(v) => Some(v@),
                    None => None,
                },
            },
            InstKind::Store(s) => InstKindView::Store { addr: s.addr@, data: s.data@ },
            InstKind::ZExt(z) => InstKindView::ZExt { ori_val: z.ori_val@, target_ty: z.target_ty@ },
        }
    }

    /// A terminator ends a block: a branch or a return.
    pub open spec fn is_terminator(&self) -> bool {
        self is Br || self is RetInst
    }

    /// Every block that the instruction branches to is one of the first
    /// `n_blocks` blocks.
    pub open spec fn targets_within(&self, n_blocks: int) -> bool {
        match self {
            InstKind::Br(Br::Br { true_bb, false_bb, .. }) => true_bb.0 < n_blocks && false_bb.0
                < n_blocks,
            InstKind::Br(Br::Jump { nxt_bb }) => nxt_bb.0 < n_blocks,
            _ => true,
        }
    }
}

} // verus!
