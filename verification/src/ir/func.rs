use vstd::prelude::*;
use vstd::string::StringExecFns;

use crate::ir::arena::{BBId, InstId, ParamId};
use crate::ir::inst::{insts_view, Inst, InstKind, InstView};
use crate::ir::ty::{FuncTy, IrTy, IrTyView};

verus! {

#[derive(Debug)]
pub struct Param {
    pub ty: IrTy,
}

/// A basic block: the handles of its instructions, in their order.
#[derive(Debug)]
pub struct BasicBlock {
    pub insts: Vec<InstId>,
}

/// A function: its signature, and for one that is defined here its
/// instructions and its blocks. `order` lists the blocks as they are laid
/// out; `is_builtin` marks a function of the runtime library, which has no
/// body.
#[derive(Debug)]
pub struct IrFunc {
    pub name: String,
    pub ty: FuncTy,
    pub is_builtin: bool,
    pub params: Vec<Param>,
    pub insts: Vec<Inst>,
    pub blocks: Vec<BasicBlock>,
    pub order: Vec<BBId>,
}

/// A function as a mathematical value.
pub struct FuncView {
    pub name: Seq<char>,
    pub is_builtin: bool,
    pub ret_ty: IrTyView,
    pub params: Seq<IrTyView>,
    pub insts: Seq<InstView>,
    pub blocks: Seq<Seq<InstId>>,
    pub order: Seq<BBId>,
}

/// Where a block stands in a layout.
pub open spec fn position(order: Seq<BBId>, bb: BBId) -> int {
    choose|i: int| 0 <= i < order.len() && order[i] == bb
}

impl IrFunc {
    /// The function as a mathematical value. The types that the signature
    /// lists are those of the parameters in a function that is `wf`, so
    /// the view holds them once.
    pub open spec fn view(&self) -> FuncView {
        FuncView {
            name: self.name@,
            is_builtin: self.is_builtin,
            ret_ty: self.ty.ret_ty@,
            params: Seq::new(self.params@.len(), |i: int| self.params@[i].ty@),
            insts: insts_view(self.insts@),
            blocks: Seq::new(self.blocks@.len(), |b: int| self.blocks@[b].insts@),
            order: self.order@,
        }
    }

    /// Every handle in the function refers to something in it, the layout
    /// holds each block once, and the signature lists the types of the
    /// parameters.
    pub open spec fn wf(&self) -> bool {
        &&& self.ty.params_ty@.len() == self.params@.len()
        &&& forall|i: int|
            0 <= i < self.params@.len() ==> (#[trigger] self.ty.params_ty@[i])@ == self.params@[i].ty@
        &&& forall|b: int, k: int|
            0 <= b < self.blocks@.len() && 0 <= k < self.blocks@[b].insts@.len() ==> (
            #[trigger] self.blocks@[b].insts@[k]).0 < self.insts@.len()
        &&& forall|i: int| 0 <= i < self.order@.len() ==> (#[trigger] self.order@[i]).0 < self.blocks@.len()
        &&& self.order@.no_duplicates()
        &&& forall|b: usize| b < self.blocks@.len() ==> #[trigger] self.order@.contains(BBId(b))
    }

    /// This function is `before` with `inst` added to the arena under the
    /// handle `id` and at the end of block `bb`.
    pub open spec fn appended(&self, before: IrFunc, inst: Inst, bb: BBId, id: InstId) -> bool {
        &&& id == InstId(before.insts@.len() as usize)
        &&& self.insts@ == before.insts@.push(inst)
        &&& self.blocks@.len() == before.blocks@.len()
        &&& self.blocks@[bb.0 as int].insts@ == before.blocks@[bb.0 as int].insts@.push(id)
        &&& forall|b: int|
            0 <= b < before.blocks@.len() && b != bb.0 ==> #[trigger] self.blocks@[b]
                == before.blocks@[b]
        &&& self.order == before.order
        &&& self.params == before.params
        &&& self.ty == before.ty
        &&& self.name == before.name
        &&& self.is_builtin == before.is_builtin
    }

    /// This function is `before` with the empty block `id` added.
    pub open spec fn block_added(&self, before: IrFunc, id: BBId) -> bool {
        &&& id == BBId(before.blocks@.len() as usize)
        &&& self.blocks@.len() == before.blocks@.len() + 1
        &&& self.blocks@.last().insts@.len() == 0
        &&& self.blocks@.drop_last() == before.blocks@
        &&& self.insts == before.insts
        &&& self.params == before.params
        &&& self.ty == before.ty
        &&& self.name == before.name
        &&& self.is_builtin == before.is_builtin
    }

    /// The kind of the instruction at place `k` of block `b`.
    pub open spec fn kind_at(&self, b: int, k: int) -> InstKind {
        self.insts@[self.blocks@[b].insts@[k].0 as int].kind
    }

    /// A function without parameters, instructions or blocks.
    pub fn new(name: &str, ret_ty: IrTy, is_builtin: bool) -> (out: IrFunc)
        ensures
            out.wf(),
            out.name@ == name@,
            out.ty.ret_ty == ret_ty,
            out.ty.params_ty@.len() == 0,
            out.is_builtin == is_builtin,
            out.params@.len() == 0,
            out.insts@.len() == 0,
            out.blocks@.len() == 0,
            out.order@.len() == 0,
    {
        IrFunc {
            name: String::from_str(name),
            ty: FuncTy { ret_ty, params_ty: Vec::new() },
            is_builtin,
            params: Vec::new(),
            insts: Vec::new(),
            blocks: Vec::new(),
            order: Vec::new(),
        }
    }

    pub fn get_ty(&self) -> (out: &FuncTy)
        ensures
            *out == self.ty,
    {
        &self.ty
    }

    pub fn get_inst(&self, id: InstId) -> (out: Option<&Inst>)
        ensures
            match out {
                Some(inst) => id.0 < self.insts@.len() && *inst == self.insts@[id.0 as int],
                None => id.0 >= self.insts@.len(),
            },
    {
        if id.0 < self.insts.len() {
            Some(&self.insts[id.0])
        } else {
            None
        }
    }

    pub fn get_bb(&self, id: BBId) -> (out: Option<&BasicBlock>)
        ensures
            match out {
                Some(bb) => id.0 < self.blocks@.len() && *bb == self.blocks@[id.0 as int],
                None => id.0 >= self.blocks@.len(),
            },
    {
        if id.0 < self.blocks.len() {
            Some(&self.blocks[id.0])
        } else {
            None
        }
    }

    pub fn get_param(&self, id: ParamId) -> (out: Option<&Param>)
        ensures
            match out {
                Some(param) => id.0 < self.params@.len() && *param == self.params@[id.0 as int],
                None => id.0 >= self.params@.len(),
            },
    {
        if id.0 < self.params.len() {
            Some(&self.params[id.0])
        } else {
            None
        }
    }

    /// Adds a parameter of type `ty` after the ones that are there.
    pub fn build_func_param(&mut self, ty: IrTy) -> (out: ParamId)
        requires
            old(self).wf(),
        ensures
            final(self).wf(),
            out == ParamId(old(self).params@.len() as usize),
            final(self).params@.len() == old(self).params@.len() + 1,
            final(self).params@.last().ty@ == ty@,
            final(self).params@.drop_last() == old(self).params@,
            final(self).ty.params_ty@ == old(self).ty.params_ty@.push(ty),
            final(self).ty.ret_ty == old(self).ty.ret_ty,
            final(self).name == old(self).name,
            final(self).is_builtin == old(self).is_builtin,
            final(self).insts == old(self).insts,
            final(self).blocks == old(self).blocks,
            final(self).order == old(self).order,
    {
        let id = ParamId(self.params.len());
        self.params.push(Param { ty: ty.clone() });
        self.ty.params_ty.push(ty);
        assert(self.params@.drop_last() =~= old(self).params@);
        id
    }

    /// Adds an instruction at the end of block `bb`.
    pub fn build_inst_at_end(&mut self, inst_kind: InstKind, ty: IrTy, bb: BBId) -> (out: InstId)
        requires
            old(self).wf(),
            bb.0 < old(self).blocks@.len(),
        ensures
            final(self).wf(),
            final(self).appended(*old(self), Inst { kind: inst_kind, ty }, bb, out),
    {
        let id = InstId(self.insts.len());
        self.insts.push(Inst { kind: inst_kind, ty });
        self.blocks[bb.0].insts.push(id);
        proof {
            assert forall|b: int, k: int|
                0 <= b < self.blocks@.len() && 0 <= k < self.blocks@[b].insts@.len() implies (
            #[trigger] self.blocks@[b].insts@[k]).0 < self.insts@.len() by {
                if b == bb.0 && k == old(self).blocks@[b].insts@.len() {
                } else {
                    assert(self.blocks@[b].insts@[k] == old(self).blocks@[b].insts@[k]);
                }
            }
        }
        id
    }

    /// Adds an empty block at the end of the layout.
    pub fn build_bb(&mut self) -> (out: BBId)
        requires
            old(self).wf(),
        ensures
            final(self).wf(),
            final(self).block_added(*old(self), out),
            final(self).order@ == old(self).order@.push(out),
    {
        let id = BBId(self.blocks.len());
        self.blocks.push(BasicBlock { insts: Vec::new() });
        self.order.push(id);
        proof {
            assert(self.blocks@.drop_last() =~= old(self).blocks@);
            assert forall|b: usize| b < self.blocks@.len() implies #[trigger] self.order@.contains(
                BBId(b),
            ) by {
                if b < old(self).blocks@.len() {
                    assert(old(self).order@.contains(BBId(b)));
                    let i = old(self).order@.index_of(BBId(b));
                    assert(self.order@[i] == BBId(b));
                } else {
                    assert(self.order@[self.order@.len() - 1] == id);
                }
            }
        }
        id
    }

    /// Where block `bb` stands in the layout.
    fn find_position(&self, bb: BBId) -> (out: usize)
        requires
            self.wf(),
            bb.0 < self.blocks@.len(),
        ensures
            out < self.order@.len(),
            self.order@[out as int] == bb,
            out == position(self.order@, bb),
    {
        proof {
            assert(self.order@.contains(BBId(bb.0)));
        }
        let ghost p = self.order@.index_of(bb);
        let n = self.order.len();
        let mut i: usize = 0;
        while self.order[i].0 != bb.0
            invariant
                0 <= i <= p < self.order@.len() == n,
                self.order@[p] == bb,
            decreases self.order@.len() - i,
        {
            i += 1;
        }
        proof {
            let q = position(self.order@, bb);
            assert(0 <= q < self.order@.len() && self.order@[q] == bb);
        }
        i
    }

    /// Adds an empty block and lays it out right after block `bb`.
    pub fn build_bb_after_cur(&mut self, bb: BBId) -> (out: BBId)
        requires
            old(self).wf(),
            bb.0 < old(self).blocks@.len(),
        ensures
            final(self).wf(),
            final(self).block_added(*old(self), out),
            final(self).order@ == old(self).order@.insert(position(old(self).order@, bb) + 1, out),
    {
        let pos = self.find_position(bb);
        assert(pos < self.order.len());
        let id = BBId(self.blocks.len());
        self.blocks.push(BasicBlock { insts: Vec::new() });
        self.order.insert(pos + 1, id);
        proof {
            let old_order = old(self).order@;
            let new_order = self.order@;
            old_order.insert_ensures(pos + 1, id);
            assert(self.blocks@.drop_last() =~= old(self).blocks@);
            assert forall|i: int| 0 <= i < new_order.len() implies (#[trigger] new_order[i]).0
                < self.blocks@.len() by {
                if i <= pos {
                    assert(new_order[i] == old_order[i]);
                } else if i > pos + 1 {
                    assert(new_order[i] == old_order[i - 1]);
                }
            }
            assert forall|i: int, j: int|
                0 <= i < new_order.len() && 0 <= j < new_order.len() && i != j implies new_order[i]
                != new_order[j] by {
                let oi = if i <= pos {
                    i
                } else {
                    i - 1
                };
                let oj = if j <= pos {
                    j
                } else {
                    j - 1
                };
                if i != pos + 1 {
                    assert(new_order[i] == old_order[oi]);
                }
                if j != pos + 1 {
                    assert(new_order[j] == old_order[oj]);
                }
            }
            assert forall|b: usize| b < self.blocks@.len() implies #[trigger] new_order.contains(
                BBId(b),
            ) by {
                if b < old(self).blocks@.len() {
                    assert(old_order.contains(BBId(b)));
                    let i = old_order.index_of(BBId(b));
                    if i <= pos {
                        assert(new_order[i] == BBId(b));
                    } else {
                        assert(new_order[i + 1] == BBId(b));
                    }
                } else {
                    assert(new_order[pos + 1] == id);
                }
            }
        }
        id
    }

    /// Lays block `after` out anew, right after block `cur`.
    pub fn set_bb_after_cur(&mut self, after: BBId, cur: BBId)
        requires
            old(self).wf(),
            after.0 < old(self).blocks@.len(),
            cur.0 < old(self).blocks@.len(),
            after != cur,
        ensures
            final(self).wf(),
            final(self).order@ == {
                let without = old(self).order@.remove(position(old(self).order@, after));
                without.insert(position(without, cur) + 1, after)
            },
            final(self).blocks == old(self).blocks,
            final(self).insts == old(self).insts,
            final(self).params == old(self).params,
            final(self).ty == old(self).ty,
            final(self).name == old(self).name,
            final(self).is_builtin == old(self).is_builtin,
    {
        let from = self.find_position(after);
        let ghost old_order = self.order@;
        self.order.remove(from);
        let ghost without = self.order@;
        proof {
            old_order.remove_ensures(from as int);
            assert forall|i: int| 0 <= i < without.len() implies #[trigger] without[i] == old_order[if i
                < from {
                i
            } else {
                i + 1
            }] by {}
            assert(old_order.contains(BBId(cur.0)));
            let pc = old_order.index_of(cur);
            assert(pc != from);
            let wc = if pc < from {
                pc
            } else {
                pc - 1
            };
            assert(without[wc] == cur);
        }
        let n = self.order.len();
        let mut i: usize = 0;
        let ghost target = without.index_of(cur);
        while self.order[i].0 != cur.0
            invariant
                self.order@ == without,
                0 <= i <= target < without.len() == n,
                without[target] == cur,
            decreases without.len() - i,
        {
            i += 1;
        }
        proof {
            let q = position(without, cur);
            assert(0 <= q < without.len() && without[q] == cur);
            assert forall|a: int, b: int|
                0 <= a < without.len() && 0 <= b < without.len() && a != b implies without[a]
                != without[b] by {}
            assert(q == i);
        }
        assert(i < self.order.len());
        self.order.insert(i + 1, after);
        proof {
            let new_order = self.order@;
            without.insert_ensures(i + 1, after);
            assert forall|k: int| 0 <= k < without.len() implies #[trigger] without[k] != after by {}
            assert forall|k: int| 0 <= k < new_order.len() implies (#[trigger] new_order[k]).0
                < self.blocks@.len() by {
                if k <= i {
                    assert(new_order[k] == without[k]);
                } else if k > i + 1 {
                    assert(new_order[k] == without[k - 1]);
                }
            }
            assert forall|a: int, b: int|
                0 <= a < new_order.len() && 0 <= b < new_order.len() && a != b implies new_order[a]
                != new_order[b] by {
                let oa = if a <= i {
                    a
                } else {
                    a - 1
                };
                let ob = if b <= i {
                    b
                } else {
                    b - 1
                };
                if a != i + 1 {
                    assert(new_order[a] == without[oa]);
                }
                if b != i + 1 {
                    assert(new_order[b] == without[ob]);
                }
            }
            assert forall|b: usize| b < self.blocks@.len() implies #[trigger] new_order.contains(
                BBId(b),
            ) by {
                let id = BBId(b);
                if id == after {
                    assert(new_order[i + 1] == after);
                } else {
                    assert(old_order.contains(id));
                    let p = old_order.index_of(id);
                    let w = if p < from {
                        p
                    } else {
                        p - 1
                    };
                    assert(without[w] == id);
                    if w <= i {
                        assert(new_order[w] == id);
                    } else {
                        assert(new_order[w + 1] == id);
                    }
                }
            }
        }
    }
}

} // verus!
