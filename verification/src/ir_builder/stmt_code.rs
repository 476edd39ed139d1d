//! What lowering a statement makes of a function, as a function of the
//! statement and of the state of the builder.

use vstd::prelude::*;

use crate::ast_view::{
    BlockItemView, BlockStmtView, ExprView, IfStmtView, InitValKindView, InitValView, StmtView,
    SubDeclView, TyView, WhileStmtView,
};
use crate::context::IdInfo;
use crate::err::ErrorView;
use crate::ir::arena::{BBId, InstId};
use crate::ir::constant::ConstantView;
use crate::ir::func::position;
use crate::ir::inst::{BrView, InstKindView, InstView, OperandView};
use crate::ir::ty::{lower_ty, IrTyView};
use crate::ir_builder::BCTarget;
use crate::ir_builder::expr_code::{expr_code, handles, ptr_view, zero_view, Names};
use crate::scope::{scopes_can_insert, scopes_insert};

verus! {

/// The state of the builder inside a function: the instructions and blocks
/// of the function, the layout of the blocks, the types of its parameters,
/// the block under the cursor, the scopes, and the targets of `break` and
/// `continue` for each loop around.
pub struct FuncState {
    pub insts: Seq<InstView>,
    pub blocks: Seq<Seq<InstId>>,
    pub order: Seq<BBId>,
    pub params: Seq<IrTyView>,
    pub cur: BBId,
    pub scopes: Seq<Map<Seq<char>, IdInfo>>,
    pub targets: Seq<BCTarget>,
}

pub open spec fn jump(to: BBId) -> InstView {
    InstView { kind: InstKindView::Br(BrView::Jump { nxt_bb: to }), ty: IrTyView::Void }
}

pub open spec fn branch(cond: OperandView, true_bb: BBId, false_bb: BBId) -> InstView {
    InstView { kind: InstKindView::Br(BrView::Br { cond, true_bb, false_bb }), ty: IrTyView::Void }
}

pub open spec fn ret(val: Option<OperandView>) -> InstView {
    InstView { kind: InstKindView::RetInst { val }, ty: IrTyView::Void }
}

pub open spec fn store(addr: OperandView, data: OperandView) -> InstView {
    InstView { kind: InstKindView::Store { addr, data }, ty: IrTyView::Void }
}

pub open spec fn alloca(ty: IrTyView) -> InstView {
    InstView { kind: InstKindView::Alloca { alloca_ty: ty }, ty: ptr_view(ty) }
}

impl FuncState {
    pub open spec fn names(self, rets: Seq<IrTyView>) -> Names {
        Names { scopes: self.scopes, rets }
    }

    /// The handle of the block that is added next.
    pub open spec fn next_block(self) -> BBId {
        BBId(self.blocks.len() as usize)
    }

    /// The state with `code` added to the block under the cursor.
    pub open spec fn with_code(self, code: Seq<InstView>) -> FuncState {
        FuncState {
            insts: self.insts + code,
            blocks: self.blocks.update(
                self.cur.0 as int,
                self.blocks[self.cur.0 as int] + handles(self.insts.len(), code.len()),
            ),
            ..self
        }
    }

    /// The state with `inst` added to the end of block `bb`.
    pub open spec fn with_inst_at(self, bb: BBId, inst: InstView) -> FuncState {
        FuncState {
            insts: self.insts.push(inst),
            blocks: self.blocks.update(
                bb.0 as int,
                self.blocks[bb.0 as int].push(InstId(self.insts.len() as usize)),
            ),
            ..self
        }
    }

    /// The state with an empty block added and laid out right after the
    /// block under the cursor.
    pub open spec fn with_block(self) -> FuncState {
        FuncState {
            blocks: self.blocks.push(Seq::empty()),
            order: self.order.insert(position(self.order, self.cur) + 1, self.next_block()),
            ..self
        }
    }

    /// The state with the cursor in block `bb`.
    pub open spec fn at(self, bb: BBId) -> FuncState {
        FuncState { cur: bb, ..self }
    }

    pub open spec fn with_scope(self) -> FuncState {
        FuncState { scopes: self.scopes.push(Map::empty()), ..self }
    }

    pub open spec fn without_scope(self) -> FuncState {
        FuncState { scopes: self.scopes.drop_last(), ..self }
    }

    /// The state with `name` bound in the innermost scope, unless that
    /// scope holds the name already.
    pub open spec fn with_name(self, name: Seq<char>, info: IdInfo) -> FuncState {
        if scopes_can_insert(self.scopes, name) {
            FuncState { scopes: scopes_insert(self.scopes, name, info), ..self }
        } else {
            self
        }
    }

    pub open spec fn with_target(self, target: BCTarget) -> FuncState {
        FuncState { targets: self.targets.push(target), ..self }
    }

    pub open spec fn without_target(self) -> FuncState {
        FuncState { targets: self.targets.drop_last(), ..self }
    }

    /// The state after the block under the cursor was ended with `inst`
    /// and the cursor was moved into a new block right after it.
    pub open spec fn left_with(self, inst: InstView) -> FuncState {
        let ended = self.with_inst_at(self.cur, inst);
        ended.with_block().at(ended.next_block())
    }
}

/// The type of a pointer to an element of an array of type `ty`.
pub open spec fn elem_ptr(ty: TyView) -> IrTyView {
    match lower_ty(ty) {
        IrTyView::Array(_, elem) => ptr_view(*elem),
        _ => arbitrary(),
    }
}

/// The instructions that store an initializer at the address `base`: an
/// expression is stored there; each element of a list is stored at the
/// address that the indices zero and its place make of `base`.
pub open spec fn init_code(names: Names, next: nat, init: InitValView, base: InstId) -> Seq<InstView>
    decreases init, 0nat,
{
    match init.kind {
        InitValKindView::Expr(e) => {
            let (code, data) = expr_code(names, next, e);
            code.push(store(OperandView::Inst(base), data))
        },
        InitValKindView::ArrayVal(vals) => inits_code(names, next, init.ty, vals, base, 0),
        InitValKindView::Const(_) => Seq::empty(),
    }
}

pub open spec fn inits_code(
    names: Names,
    next: nat,
    ty: TyView,
    vals: Seq<InitValView>,
    base: InstId,
    from: nat,
) -> Seq<InstView>
    decreases vals, vals.len() - from,
{
    if from >= vals.len() {
        Seq::empty()
    } else {
        let gep = InstView {
            kind: InstKindView::GEP {
                ptr: OperandView::Inst(base),
                indices: seq![zero_view(), OperandView::Const(ConstantView::Int(from as i32))],
            },
            ty: elem_ptr(ty),
        };
        let code = init_code(names, next + 1, vals[from as int], InstId(next as usize));
        seq![gep] + code + inits_code(names, next + 1 + code.len(), ty, vals, base, from + 1)
    }
}

/// The state after a declared name of a local declaration was lowered:
/// memory on the stack, the name bound to its address, the initializer
/// stored.
pub open spec fn lower_local(rets: Seq<IrTyView>, s: FuncState, sd: SubDeclView) -> FuncState {
    let addr = InstId(s.insts.len() as usize);
    let declared = s.with_code(seq![alloca(lower_ty(sd.ty))]).with_name(
        sd.ident.name,
        IdInfo::Inst(addr),
    );
    match sd.init_val {
        Some(init) => declared.with_code(
            init_code(declared.names(rets), declared.insts.len(), init, addr),
        ),
        None => declared,
    }
}

pub open spec fn lower_locals(rets: Seq<IrTyView>, s: FuncState, sds: Seq<SubDeclView>, from: nat) -> FuncState
    decreases sds.len() - from,
{
    if from >= sds.len() {
        s
    } else {
        lower_locals(rets, lower_local(rets, s, sds[from as int]), sds, from + 1)
    }
}

/// The state after an expression was lowered for its effect.
pub open spec fn lower_expr_stmt(rets: Seq<IrTyView>, s: FuncState, e: ExprView) -> FuncState {
    s.with_code(expr_code(s.names(rets), s.insts.len(), e).0)
}

/// The state after a statement was lowered, or the error of a `break` or
/// `continue` with no loop around it.
pub open spec fn lower_stmt(rets: Seq<IrTyView>, s: FuncState, stmt: StmtView) -> Result<
    FuncState,
    ErrorView,
>
    decreases stmt, 0nat,
{
    match stmt {
        StmtView::Expr(e) => Ok(lower_expr_stmt(rets, s, e)),
        StmtView::Block(b) => lower_block(rets, s, b),
        StmtView::If(i) => lower_if(rets, s, i),
        StmtView::While(w) => lower_while(rets, s, w),
        StmtView::Break(_) => if s.targets.len() == 0 {
            Err(ErrorView::BreakOutsideLoop)
        } else {
            Ok(s.left_with(jump(s.targets.last().break_target)))
        },
        StmtView::Continue(_) => if s.targets.len() == 0 {
            Err(ErrorView::ContinueOutsideLoop)
        } else {
            Ok(s.left_with(jump(s.targets.last().continue_target)))
        },
        StmtView::Return(r) => match r.val {
            Some(e) => {
                let (code, val) = expr_code(s.names(rets), s.insts.len(), e);
                Ok(s.with_code(code).left_with(ret(Some(val))))
            },
            None => Ok(s.left_with(ret(None))),
        },
        StmtView::Empty(_) => Ok(s),
    }
}

/// `if`: the condition in the block under the cursor; the then-branch from
/// a new block after it; the else-branch, if there is one, from a new block
/// after the end of the then-branch; a new block where the branches meet.
/// Then the block of the condition branches to the two branches, or to the
/// meeting block where there is no else-branch, and the end of each branch
/// jumps to the meeting block, where the cursor ends.
pub open spec fn lower_if(rets: Seq<IrTyView>, s: FuncState, i: IfStmtView) -> Result<
    FuncState,
    ErrorView,
>
    decreases i, 0nat,
{
    let (code, cond) = expr_code(s.names(rets), s.insts.len(), i.cond);
    let origin = s.cur;
    let s1 = s.with_code(code);
    let then_bb = s1.next_block();
    match lower_stmt(rets, s1.with_block().at(then_bb), *i.then_block) {
        Err(err) => Err(err),
        Ok(s2) => {
            let then_end = s2.cur;
            match i.else_block {
                None => {
                    let nxt = s2.next_block();
                    Ok(
                        s2.with_block().with_inst_at(origin, branch(cond, then_bb, nxt)).with_inst_at(
                            then_end,
                            jump(nxt),
                        ).at(nxt),
                    )
                },
                Some(e) => {
                    let else_bb = s2.next_block();
                    match lower_stmt(rets, s2.with_block().at(else_bb), *e) {
                        Err(err) => Err(err),
                        Ok(s3) => {
                            let else_end = s3.cur;
                            let nxt = s3.next_block();
                            Ok(
                                s3.with_block().with_inst_at(
                                    origin,
                                    branch(cond, then_bb, else_bb),
                                ).with_inst_at(then_end, jump(nxt)).with_inst_at(
                                    else_end,
                                    jump(nxt),
                                ).at(nxt),
                            )
                        },
                    }
                },
            }
        },
    }
}

/// `while`: a new block after the cursor's for the condition, a block for
/// the body after that, and a block after the loop after that of the body,
/// so that the blocks are laid out in the order of the source. The body is
/// lowered from its block with `break` going to
/// the block after the loop and `continue` to the condition. Then the
/// block that held the cursor jumps to the condition, the condition
/// branches to the body and to the block after the loop, and the end of
/// the body jumps to the condition. The cursor ends after the loop.
pub open spec fn lower_while(rets: Seq<IrTyView>, s: FuncState, w: WhileStmtView) -> Result<
    FuncState,
    ErrorView,
>
    decreases w, 0nat,
{
    let origin = s.cur;
    let cond_bb = s.next_block();
    let s1 = s.with_block().at(cond_bb);
    let (code, cond) = expr_code(s1.names(rets), s1.insts.len(), w.cond);
    let s2 = s1.with_code(code);
    let loop_bb = s2.next_block();
    let s3 = s2.with_block().at(loop_bb);
    let nxt = s3.next_block();
    let s4 = s3.with_block().with_target(
        BCTarget { break_target: nxt, continue_target: cond_bb },
    );
    match lower_stmt(rets, s4, *w.body) {
        Err(err) => Err(err),
        Ok(s5) => {
            let loop_end = s5.cur;
            Ok(
                s5.without_target().with_inst_at(origin, jump(cond_bb)).with_inst_at(
                    cond_bb,
                    branch(cond, loop_bb, nxt),
                ).with_inst_at(loop_end, jump(cond_bb)).at(nxt),
            )
        },
    }
}

/// A block is lowered in a scope of its own.
pub open spec fn lower_block(rets: Seq<IrTyView>, s: FuncState, b: BlockStmtView) -> Result<
    FuncState,
    ErrorView,
>
    decreases b, 1nat,
{
    match lower_items(rets, s.with_scope(), b.block_items, 0) {
        Err(err) => Err(err),
        Ok(s1) => Ok(s1.without_scope()),
    }
}

pub open spec fn lower_items(rets: Seq<IrTyView>, s: FuncState, items: Seq<BlockItemView>, from: nat) -> Result<
    FuncState,
    ErrorView,
>
    decreases items, items.len() - from,
{
    if from >= items.len() {
        Ok(s)
    } else {
        match lower_item(rets, s, items[from as int]) {
            Err(err) => Err(err),
            Ok(s1) => lower_items(rets, s1, items, from + 1),
        }
    }
}

pub open spec fn lower_item(rets: Seq<IrTyView>, s: FuncState, item: BlockItemView) -> Result<
    FuncState,
    ErrorView,
>
    decreases item, 1nat,
{
    match item {
        BlockItemView::Stmt(stmt) => lower_stmt(rets, s, stmt),
        BlockItemView::Decl(d) => Ok(lower_locals(rets, s, d.sub_decls, 0)),
    }
}

/// The last instruction of block `bb`.
pub open spec fn last_inst(s: FuncState, bb: BBId) -> InstView {
    s.insts[s.blocks[bb.0 as int].last().0 as int]
}

/// An `if` without `else` whose branch is one plain statement makes three
/// blocks of the one under the cursor: that block, which ends in the
/// branch to the two others; the block of the then-branch, which ends in
/// the jump to the third; and the third, which is empty and holds the
/// cursor.
pub proof fn lemma_if_without_else(rets: Seq<IrTyView>, s: FuncState, i: IfStmtView)
    requires
        i.else_block is None,
        *i.then_block is Expr || *i.then_block is Empty,
        s.cur.0 < s.blocks.len(),
        lower_if(rets, s, i) matches Ok(t) && t.insts.len() <= usize::MAX && t.blocks.len()
            <= usize::MAX,
    ensures
        ({
            let t = lower_if(rets, s, i)->Ok_0;
            let then_bb = BBId(s.blocks.len() as usize);
            let nxt = BBId((s.blocks.len() + 1) as usize);
            let cond = expr_code(s.names(rets), s.insts.len(), i.cond).1;
            &&& t.blocks.len() == s.blocks.len() + 2
            &&& t.cur == nxt
            &&& last_inst(t, s.cur) == branch(cond, then_bb, nxt)
            &&& last_inst(t, then_bb) == jump(nxt)
            &&& t.blocks[nxt.0 as int].len() == 0
            &&& forall|b: int| 0 <= b < s.blocks.len() && b != s.cur.0 ==> t.blocks[b] == s.blocks[b]
        }),
{
    let (code, cond) = expr_code(s.names(rets), s.insts.len(), i.cond);
    let s1 = s.with_code(code);
    let then_bb = s1.next_block();
    let s2 = lower_stmt(rets, s1.with_block().at(then_bb), *i.then_block)->Ok_0;
    assert(s2.cur == then_bb);
    assert(s2.blocks.len() == s.blocks.len() + 1);
    let nxt = s2.next_block();
    let t = lower_if(rets, s, i)->Ok_0;
    let n = s2.insts.len();
    assert(t.insts.len() == n + 2);
    assert(t.blocks[s.cur.0 as int].last() == InstId(n as usize));
    assert(t.blocks[then_bb.0 as int].last() == InstId((n + 1) as usize));
}

} // verus!
