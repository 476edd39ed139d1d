//! What the builder asks of a checked program, and what it keeps true of
//! the control-flow graph while it lowers one.

use vstd::prelude::*;

use crate::ast_view::{
    AstFuncView, BlockItemView, BlockStmtView, DeclView, ExprView, FuncParamView, InitValKindView,
    InitValView, LValView, ProgramItemView, ProgramView, StmtView, SubDeclView, TyView,
};
use crate::context::IdInfo;
use crate::err::ErrorView;
use crate::ir::arena::{BBId, InstId};
use crate::ir::constant::literal_typed;
use crate::ir::func::IrFunc;
use crate::ir::inst::Inst;
use crate::scope::{scopes_can_insert, scopes_find, scopes_insert, scopes_map};

verus! {

/// Whether a name stands for a function or for a place in memory.
pub enum Kind {
    Var,
    Func,
}

/// The scopes of the builder, with each name's kind alone.
pub type Kinds = Seq<Map<Seq<char>, Kind>>;

pub open spec fn kind_of(info: IdInfo) -> Kind {
    if info is Func {
        Kind::Func
    } else {
        Kind::Var
    }
}

pub open spec fn kinds_of(scopes: Seq<Map<Seq<char>, IdInfo>>) -> Kinds {
    scopes_map(scopes, |info: IdInfo| kind_of(info))
}

/// The scopes after a name was declared: a name that the innermost scope
/// holds already keeps its first meaning.
pub open spec fn declare_kind(kinds: Kinds, name: Seq<char>, kind: Kind) -> Kinds {
    if scopes_can_insert(kinds, name) {
        scopes_insert(kinds, name, kind)
    } else {
        kinds
    }
}

/// The type of an argument: a scalar, a pointer or an array.
pub open spec fn arg_ty_ok(ty: TyView) -> bool {
    (ty is Int || ty is Bool || ty is Ptr || ty is Array) && ty.known()
}

/// An expression that the builder can lower: it is typed, each name in it
/// stands for what it is used as, the target of an assignment is a place,
/// and each literal is an integer.
pub open spec fn lowerable_expr(kinds: Kinds, e: ExprView) -> bool
    decreases e, 1nat,
{
    match e {
        ExprView::LVal(l) => lowerable_lval(kinds, l),
        ExprView::Assign(a) => {
            &&& *a.lhs is LVal
            &&& lowerable_expr(kinds, *a.lhs)
            &&& lowerable_expr(kinds, *a.rhs)
        },
        ExprView::Literal(l) => l.kind is Integer,
        ExprView::Unary(u) => lowerable_expr(kinds, *u.sub_expr) && u.ty.known(),
        ExprView::Binary(b) => {
            &&& lowerable_expr(kinds, *b.lhs)
            &&& lowerable_expr(kinds, *b.rhs)
            &&& b.ty.known()
        },
        ExprView::Call(c) => {
            &&& scopes_find(kinds, c.func.name) == Some(Kind::Func)
            &&& forall|i: int|
                0 <= i < c.args.len() ==> lowerable_expr(kinds, #[trigger] c.args[i]) && arg_ty_ok(
                    c.args[i].ty(),
                )
        },
    }
}

pub open spec fn lowerable_lval(kinds: Kinds, l: LValView) -> bool
    decreases l, 0nat,
{
    &&& scopes_find(kinds, l.ident.name) == Some(Kind::Var)
    &&& l.ty.known()
    &&& match l.subs {
        Some(s) => forall|i: int| 0 <= i < s.subs.len() ==> lowerable_expr(kinds, #[trigger] s.subs[i]),
        None => true,
    }
}

/// An initializer of a local that the builder can lower: a list stands for
/// an array and has a type.
pub open spec fn lowerable_init(kinds: Kinds, init: InitValView) -> bool
    decreases init,
{
    match init.kind {
        InitValKindView::Expr(e) => lowerable_expr(kinds, e),
        InitValKindView::ArrayVal(vals) => {
            &&& init.ty is Array
            &&& init.ty.known()
            &&& vals.len() <= i32::MAX
            &&& forall|i: int| 0 <= i < vals.len() ==> lowerable_init(kinds, #[trigger] vals[i])
        },
        InitValKindView::Const(_) => false,
    }
}

/// A declared name of a local declaration: it is declared before its
/// initializer is lowered.
pub open spec fn lowerable_local(kinds: Kinds, sd: SubDeclView) -> bool {
    &&& sd.ty.known()
    &&& match sd.init_val {
        Some(init) => lowerable_init(declare_kind(kinds, sd.ident.name, Kind::Var), init),
        None => true,
    }
}

pub open spec fn lowerable_locals(kinds: Kinds, sds: Seq<SubDeclView>, from: nat) -> bool
    decreases sds.len() - from,
{
    if from >= sds.len() {
        true
    } else {
        &&& lowerable_local(kinds, sds[from as int])
        &&& lowerable_locals(
            declare_kind(kinds, sds[from as int].ident.name, Kind::Var),
            sds,
            from + 1,
        )
    }
}

/// The scopes after the names from index `from` on were declared.
pub open spec fn kinds_after_decls(kinds: Kinds, sds: Seq<SubDeclView>, from: nat) -> Kinds
    decreases sds.len() - from,
{
    if from >= sds.len() {
        kinds
    } else {
        kinds_after_decls(declare_kind(kinds, sds[from as int].ident.name, Kind::Var), sds, from + 1)
    }
}

pub open spec fn lowerable_stmt(kinds: Kinds, s: StmtView) -> bool
    decreases s, 0nat,
{
    match s {
        StmtView::Expr(e) => lowerable_expr(kinds, e),
        StmtView::Block(b) => lowerable_block(kinds, b),
        StmtView::If(i) => {
            &&& lowerable_expr(kinds, i.cond)
            &&& lowerable_stmt(kinds, *i.then_block)
            &&& match i.else_block {
                Some(e) => lowerable_stmt(kinds, *e),
                None => true,
            }
        },
        StmtView::While(w) => lowerable_expr(kinds, w.cond) && lowerable_stmt(kinds, *w.body),
        StmtView::Break(_) | StmtView::Continue(_) | StmtView::Empty(_) => true,
        StmtView::Return(r) => match r.val {
            Some(e) => lowerable_expr(kinds, e),
            None => true,
        },
    }
}

pub open spec fn lowerable_block(kinds: Kinds, b: BlockStmtView) -> bool
    decreases b, 1nat,
{
    lowerable_items(kinds.push(Map::empty()), b.block_items, 0)
}

pub open spec fn lowerable_items(kinds: Kinds, items: Seq<BlockItemView>, from: nat) -> bool
    decreases items, items.len() - from,
{
    if from >= items.len() {
        true
    } else {
        &&& lowerable_item(kinds, items[from as int])
        &&& lowerable_items(kinds_after_item(kinds, items[from as int]), items, from + 1)
    }
}

pub open spec fn lowerable_item(kinds: Kinds, item: BlockItemView) -> bool
    decreases item, 1nat,
{
    match item {
        BlockItemView::Stmt(s) => lowerable_stmt(kinds, s),
        BlockItemView::Decl(d) => lowerable_locals(kinds, d.sub_decls, 0),
    }
}

pub open spec fn kinds_after_item(kinds: Kinds, item: BlockItemView) -> Kinds {
    match item {
        BlockItemView::Stmt(_) => kinds,
        BlockItemView::Decl(d) => kinds_after_decls(kinds, d.sub_decls, 0),
    }
}

/// A declared name of a global declaration: its initializer is folded.
pub open spec fn lowerable_global(sd: SubDeclView) -> bool {
    &&& sd.ty.known()
    &&& match sd.init_val {
        Some(init) => init.kind matches InitValKindView::Const(lit) && literal_typed(lit),
        None => true,
    }
}

pub open spec fn lowerable_globals(d: DeclView) -> bool {
    forall|i: int| 0 <= i < d.sub_decls.len() ==> lowerable_global(#[trigger] d.sub_decls[i])
}

/// The scopes after the parameters from index `from` on were declared.
pub open spec fn kinds_after_params(kinds: Kinds, params: Seq<FuncParamView>, from: nat) -> Kinds
    decreases params.len() - from,
{
    if from >= params.len() {
        kinds
    } else {
        kinds_after_params(
            declare_kind(kinds, params[from as int].ident.name, Kind::Var),
            params,
            from + 1,
        )
    }
}

/// A function that the builder can lower: its name is declared before its
/// body is lowered, its parameters in a scope of their own.
pub open spec fn lowerable_func(kinds: Kinds, f: AstFuncView) -> bool {
    &&& forall|i: int| 0 <= i < f.params.len() ==> (#[trigger] f.params[i]).ty.known()
    &&& lowerable_block(
        kinds_after_params(
            declare_kind(kinds, f.ident.name, Kind::Func).push(Map::empty()),
            f.params,
            0,
        ),
        f.body,
    )
}

pub open spec fn lowerable_program_item(kinds: Kinds, item: ProgramItemView) -> bool {
    match item {
        ProgramItemView::Decl(d) => lowerable_globals(d),
        ProgramItemView::Func(f) => lowerable_func(kinds, f),
    }
}

pub open spec fn kinds_after_program_item(kinds: Kinds, item: ProgramItemView) -> Kinds {
    match item {
        ProgramItemView::Decl(d) => kinds_after_decls(kinds, d.sub_decls, 0),
        ProgramItemView::Func(f) => declare_kind(kinds, f.ident.name, Kind::Func),
    }
}

pub open spec fn lowerable_program_items(kinds: Kinds, items: Seq<ProgramItemView>, from: nat) -> bool
    decreases items.len() - from,
{
    if from >= items.len() {
        true
    } else {
        &&& lowerable_program_item(kinds, items[from as int])
        &&& lowerable_program_items(
            kinds_after_program_item(kinds, items[from as int]),
            items,
            from + 1,
        )
    }
}

pub open spec fn kinds_after_program_items(kinds: Kinds, items: Seq<ProgramItemView>, from: nat) -> Kinds
    decreases items.len() - from,
{
    if from >= items.len() {
        kinds
    } else {
        kinds_after_program_items(
            kinds_after_program_item(kinds, items[from as int]),
            items,
            from + 1,
        )
    }
}

/// The scopes with the six functions of the runtime library declared.
pub open spec fn kinds_with_builtins(kinds: Kinds) -> Kinds {
    let kinds = declare_kind(kinds, "getint"@, Kind::Func);
    let kinds = declare_kind(kinds, "getch"@, Kind::Func);
    let kinds = declare_kind(kinds, "getarray"@, Kind::Func);
    let kinds = declare_kind(kinds, "putint"@, Kind::Func);
    let kinds = declare_kind(kinds, "putch"@, Kind::Func);
    declare_kind(kinds, "putarray"@, Kind::Func)
}

/// A program that the builder can lower: one that the type checker has
/// passed, in which each name stands for what it is used as.
pub open spec fn lowerable_program(kinds: Kinds, p: ProgramView) -> bool {
    lowerable_program_items(kinds_with_builtins(kinds.push(Map::empty())), p.program_items, 0)
}

/// The error of lowering a statement inside `depth` loops: that of the
/// first `break` or `continue` with no loop around it.
pub open spec fn stmt_error(depth: nat, s: StmtView) -> Option<ErrorView>
    decreases s, 0nat,
{
    match s {
        StmtView::Block(b) => items_error(depth, b.block_items, 0),
        StmtView::If(i) => match stmt_error(depth, *i.then_block) {
            Some(err) => Some(err),
            None => match i.else_block {
                Some(e) => stmt_error(depth, *e),
                None => None,
            },
        },
        StmtView::While(w) => stmt_error(depth + 1, *w.body),
        StmtView::Break(_) => if depth == 0 {
            Some(ErrorView::BreakOutsideLoop)
        } else {
            None
        },
        StmtView::Continue(_) => if depth == 0 {
            Some(ErrorView::ContinueOutsideLoop)
        } else {
            None
        },
        StmtView::Expr(_) | StmtView::Return(_) | StmtView::Empty(_) => None,
    }
}

pub open spec fn items_error(depth: nat, items: Seq<BlockItemView>, from: nat) -> Option<ErrorView>
    decreases items, items.len() - from,
{
    if from >= items.len() {
        None
    } else {
        match items[from as int] {
            BlockItemView::Stmt(s) => match stmt_error(depth, s) {
                Some(err) => Some(err),
                None => items_error(depth, items, from + 1),
            },
            BlockItemView::Decl(_) => items_error(depth, items, from + 1),
        }
    }
}

pub open spec fn program_item_error(item: ProgramItemView) -> Option<ErrorView> {
    match item {
        ProgramItemView::Decl(_) => None,
        ProgramItemView::Func(f) => items_error(0, f.body.block_items, 0),
    }
}

/// The error of lowering a program: that of its first function with a
/// `break` or `continue` outside every loop.
pub open spec fn program_error(items: Seq<ProgramItemView>, from: nat) -> Option<ErrorView>
    decreases items.len() - from,
{
    if from >= items.len() {
        None
    } else {
        match program_item_error(items[from as int]) {
            Some(err) => Some(err),
            None => program_error(items, from + 1),
        }
    }
}

impl IrFunc {
    /// Block `b` holds no terminator yet.
    pub open spec fn open_block(&self, b: int) -> bool {
        forall|k: int|
            0 <= k < self.blocks@[b].insts@.len() ==> !(#[trigger] self.kind_at(b, k)).is_terminator()
    }

    /// Block `b` ends in a terminator, holds no other, and branches to
    /// blocks of this function alone.
    pub open spec fn closed_block(&self, b: int) -> bool {
        let n = self.blocks@[b].insts@.len();
        &&& n > 0
        &&& self.kind_at(b, n - 1).is_terminator()
        &&& self.kind_at(b, n - 1).targets_within(self.blocks@.len() as int)
        &&& forall|k: int| 0 <= k < n - 1 ==> !(#[trigger] self.kind_at(b, k)).is_terminator()
    }

    /// No instruction loads a whole array.
    pub open spec fn no_aggregate_load(&self) -> bool {
        forall|i: int|
            0 <= i < self.insts@.len() && (#[trigger] self.insts@[i]).kind is Load ==> !(
            self.insts@[i].ty is Array)
    }

    /// The function is finished: each block ends in its one terminator,
    /// each branch goes to a block of the function, and no array is loaded
    /// as a value.
    pub open spec fn finished(&self) -> bool {
        &&& self.wf()
        &&& self.no_aggregate_load()
        &&& forall|b: int| 0 <= b < self.blocks@.len() ==> #[trigger] self.closed_block(b)
    }

    /// The function is `before` with more instructions and blocks.
    pub open spec fn grown_from(&self, before: IrFunc) -> bool {
        &&& self.insts@.len() >= before.insts@.len()
        &&& forall|i: int| 0 <= i < before.insts@.len() ==> #[trigger] self.insts@[i] == before.insts@[i]
        &&& self.blocks@.len() >= before.blocks@.len()
        &&& self.params == before.params
        &&& self.ty == before.ty
        &&& self.name == before.name
        &&& self.is_builtin == before.is_builtin
    }

    /// The function is what lowering a piece of code makes of `before`,
    /// with the cursor in block `cur` at the start and in block `end` at
    /// the end: the blocks that were there, but for `cur`, are as they
    /// were; `cur` and each new block is closed, but for `end`, which is
    /// open.
    pub open spec fn lowered_from(&self, before: IrFunc, cur: BBId, end: BBId) -> bool {
        &&& self.grown_from(before)
        &&& forall|b: int|
            0 <= b < before.blocks@.len() && b != cur.0 ==> #[trigger] self.blocks@[b] == before.blocks@[b]
        &&& forall|b: int|
            0 <= b < self.blocks@.len() && (b >= before.blocks@.len() || b == cur.0) && b != end.0
                ==> #[trigger] self.closed_block(b)
        &&& (end == cur || end.0 >= before.blocks@.len())
        &&& end.0 < self.blocks@.len()
        &&& self.open_block(end.0 as int)
    }

    /// The function is what a part of lowering a piece of code makes of
    /// `before`: the blocks that were there, but for `cur`, are as they
    /// were; of `cur` and the new blocks, those in `pending` are open and
    /// the others are closed.
    pub open spec fn partly_lowered_from(&self, before: IrFunc, cur: BBId, pending: Set<int>) -> bool {
        &&& self.grown_from(before)
        &&& forall|b: int| pending.contains(b) ==> 0 <= b < self.blocks@.len()
        &&& forall|b: int|
            0 <= b < before.blocks@.len() && b != cur.0 ==> #[trigger] self.blocks@[b] == before.blocks@[b]
        &&& forall|b: int|
            0 <= b < self.blocks@.len() && (b >= before.blocks@.len() || b == cur.0) && pending.contains(
                b,
            ) ==> #[trigger] self.open_block(b)
        &&& forall|b: int|
            0 <= b < self.blocks@.len() && (b >= before.blocks@.len() || b == cur.0)
                && !pending.contains(b) ==> #[trigger] self.closed_block(b)
    }

    /// The function is `before` with instructions that end no block added
    /// to block `cur`.
    pub open spec fn extended_from(&self, before: IrFunc, cur: BBId) -> bool {
        &&& self.grown_from(before)
        &&& self.blocks@.len() == before.blocks@.len()
        &&& self.order == before.order
        &&& forall|b: int|
            0 <= b < before.blocks@.len() && b != cur.0 ==> #[trigger] self.blocks@[b] == before.blocks@[b]
    }
}

/// A block that is as it was keeps its state when the function grows.
pub proof fn lemma_grown_keeps_block(before: IrFunc, after: IrFunc, b: int)
    requires
        before.wf(),
        after.grown_from(before),
        0 <= b < before.blocks@.len(),
        after.blocks@[b] == before.blocks@[b],
    ensures
        before.open_block(b) ==> after.open_block(b),
        before.closed_block(b) ==> after.closed_block(b),
{
    assert forall|k: int| 0 <= k < before.blocks@[b].insts@.len() implies #[trigger] after.kind_at(b, k)
        == before.kind_at(b, k) by {
        assert(before.blocks@[b].insts@[k].0 < before.insts@.len());
    }
    if before.open_block(b) {
        assert forall|k: int| 0 <= k < after.blocks@[b].insts@.len() implies !(
        #[trigger] after.kind_at(b, k)).is_terminator() by {
            assert(after.kind_at(b, k) == before.kind_at(b, k));
        }
    }
    if before.closed_block(b) {
        let n = before.blocks@[b].insts@.len() as int;
        assert(after.kind_at(b, n - 1) == before.kind_at(b, n - 1));
        assert forall|k: int| 0 <= k < n - 1 implies !(#[trigger] after.kind_at(b, k)).is_terminator() by {
            assert(after.kind_at(b, k) == before.kind_at(b, k));
        }
    }
}

/// What an added instruction does to the blocks: the block that takes it
/// stays open if the instruction ends no block, and is closed if the
/// instruction is a terminator that branches to blocks of the function;
/// every other block keeps its state.
pub proof fn lemma_appended(before: IrFunc, after: IrFunc, inst: Inst, bb: BBId, id: InstId)
    requires
        before.wf(),
        bb.0 < before.blocks@.len(),
        after.appended(before, inst, bb, id),
    ensures
        after.grown_from(before),
        after.extended_from(before, bb),
        before.open_block(bb.0 as int) && !inst.kind.is_terminator() ==> after.open_block(bb.0 as int),
        before.open_block(bb.0 as int) && inst.kind.is_terminator() && inst.kind.targets_within(
            before.blocks@.len() as int,
        ) ==> after.closed_block(bb.0 as int),
        before.no_aggregate_load() && !(inst.kind is Load && inst.ty is Array)
            ==> after.no_aggregate_load(),
        forall|b: int|
            0 <= b < before.blocks@.len() && b != bb.0 && before.open_block(b)
                ==> #[trigger] after.open_block(b),
        forall|b: int|
            0 <= b < before.blocks@.len() && b != bb.0 && before.closed_block(b)
                ==> #[trigger] after.closed_block(b),
{
    let c = bb.0 as int;
    let n = before.blocks@[c].insts@.len() as int;
    assert(before.insts.len() == before.insts@.len());
    assert(id.0 == before.insts@.len());
    assert forall|k: int| 0 <= k < n implies #[trigger] after.kind_at(c, k) == before.kind_at(c, k) by {
        assert(before.blocks@[c].insts@[k].0 < before.insts@.len());
        assert(after.blocks@[c].insts@[k] == before.blocks@[c].insts@[k]);
    }
    assert(after.kind_at(c, n) == inst.kind);
    if before.open_block(c) && !inst.kind.is_terminator() {
        assert forall|k: int| 0 <= k < after.blocks@[c].insts@.len() implies !(
        #[trigger] after.kind_at(c, k)).is_terminator() by {
            if k < n {
                assert(after.kind_at(c, k) == before.kind_at(c, k));
            }
        }
    }
    if before.open_block(c) && inst.kind.is_terminator() {
        assert forall|k: int| 0 <= k < n implies !(#[trigger] after.kind_at(c, k)).is_terminator() by {
            assert(after.kind_at(c, k) == before.kind_at(c, k));
        }
    }
    assert forall|b: int|
        0 <= b < before.blocks@.len() && b != bb.0 && before.open_block(
            b,
        ) implies #[trigger] after.open_block(b) by {
        lemma_grown_keeps_block(before, after, b);
    }
    assert forall|b: int|
        0 <= b < before.blocks@.len() && b != bb.0 && before.closed_block(
            b,
        ) implies #[trigger] after.closed_block(b) by {
        lemma_grown_keeps_block(before, after, b);
    }
}

/// What an added block does: it is open, and every other block keeps its
/// state.
pub proof fn lemma_block_added(before: IrFunc, after: IrFunc, id: BBId)
    requires
        before.wf(),
        after.block_added(before, id),
    ensures
        after.grown_from(before),
        after.open_block(id.0 as int),
        before.no_aggregate_load() ==> after.no_aggregate_load(),
        forall|b: int|
            0 <= b < before.blocks@.len() ==> #[trigger] after.blocks@[b] == before.blocks@[b],
        forall|b: int|
            0 <= b < before.blocks@.len() && before.open_block(b) ==> #[trigger] after.open_block(b),
        forall|b: int|
            0 <= b < before.blocks@.len() && before.closed_block(b)
                ==> #[trigger] after.closed_block(b),
{
    assert(before.blocks.len() == before.blocks@.len());
    assert(id.0 == before.blocks@.len());
    assert(after.blocks@.last() == after.blocks@[id.0 as int]);
    assert forall|b: int| 0 <= b < before.blocks@.len() implies #[trigger] after.blocks@[b]
        == before.blocks@[b] by {
        assert(after.blocks@.drop_last()[b] == after.blocks@[b]);
    }
    assert forall|b: int| 0 <= b < before.blocks@.len() && before.open_block(b) implies #[trigger] after.open_block(
        b,
    ) by {
        lemma_grown_keeps_block(before, after, b);
    }
    assert forall|b: int|
        0 <= b < before.blocks@.len() && before.closed_block(b) implies #[trigger] after.closed_block(
        b,
    ) by {
        lemma_grown_keeps_block(before, after, b);
    }
}

/// Lowering a piece of code leaves each block that was there, but for the
/// one under the cursor, in its state.
pub proof fn lemma_lowered_keeps(before: IrFunc, after: IrFunc, cur: BBId, end: BBId)
    requires
        before.wf(),
        after.lowered_from(before, cur, end),
    ensures
        forall|b: int|
            0 <= b < before.blocks@.len() && b != cur.0 && before.open_block(b)
                ==> #[trigger] after.open_block(b),
        forall|b: int|
            0 <= b < before.blocks@.len() && b != cur.0 && before.closed_block(b)
                ==> #[trigger] after.closed_block(b),
{
    assert forall|b: int|
        0 <= b < before.blocks@.len() && b != cur.0 && before.open_block(
            b,
        ) implies #[trigger] after.open_block(b) by {
        lemma_grown_keeps_block(before, after, b);
    }
    assert forall|b: int|
        0 <= b < before.blocks@.len() && b != cur.0 && before.closed_block(
            b,
        ) implies #[trigger] after.closed_block(b) by {
        lemma_grown_keeps_block(before, after, b);
    }
}

/// Growing twice is growing.
pub proof fn lemma_grown_trans(first: IrFunc, second: IrFunc, third: IrFunc)
    requires
        second.grown_from(first),
        third.grown_from(second),
    ensures
        third.grown_from(first),
{
}

/// Lowering one piece of code after another is lowering both.
pub proof fn lemma_lowered_trans(first: IrFunc, second: IrFunc, third: IrFunc, cur: BBId, mid: BBId, end: BBId)
    requires
        first.wf(),
        second.wf(),
        cur.0 < first.blocks@.len(),
        second.lowered_from(first, cur, mid),
        third.lowered_from(second, mid, end),
    ensures
        third.lowered_from(first, cur, end),
{
    assert forall|b: int| 0 <= b < first.blocks@.len() && b != cur.0 implies #[trigger] third.blocks@[b]
        == first.blocks@[b] by {
        assert(second.blocks@[b] == first.blocks@[b]);
        assert(third.blocks@[b] == second.blocks@[b]);
    }
    assert forall|b: int|
        0 <= b < third.blocks@.len() && (b >= first.blocks@.len() || b == cur.0) && b != end.0
        implies #[trigger] third.closed_block(b) by {
        if b >= second.blocks@.len() || b == mid.0 {
        } else {
            assert(second.closed_block(b));
            assert(third.blocks@[b] == second.blocks@[b]);
            lemma_grown_keeps_block(second, third, b);
        }
    }
}

/// Adding to the block under the cursor instructions that end no block is
/// lowering with the cursor where it was.
pub proof fn lemma_extended_is_lowered(before: IrFunc, after: IrFunc, cur: BBId)
    requires
        after.extended_from(before, cur),
        cur.0 < before.blocks@.len(),
        after.open_block(cur.0 as int),
    ensures
        after.lowered_from(before, cur, cur),
{
}

/// At the start, the block under the cursor alone is pending.
pub proof fn lemma_partly_start(f: IrFunc, cur: BBId)
    requires
        cur.0 < f.blocks@.len(),
        f.open_block(cur.0 as int),
    ensures
        f.partly_lowered_from(f, cur, set![cur.0 as int]),
{
}

/// Lowering a piece of code from a pending block `at` leaves the block
/// where it ends pending in its place.
pub proof fn lemma_partly_lowered(
    before: IrFunc,
    mid: IrFunc,
    after: IrFunc,
    cur: BBId,
    pending: Set<int>,
    at: BBId,
    end: BBId,
)
    requires
        mid.wf(),
        mid.partly_lowered_from(before, cur, pending),
        at.0 < mid.blocks@.len(),
        at.0 >= before.blocks@.len() || at == cur,
        after.lowered_from(mid, at, end),
    ensures
        after.partly_lowered_from(before, cur, pending.remove(at.0 as int).insert(end.0 as int)),
{
    let pending2 = pending.remove(at.0 as int).insert(end.0 as int);
    assert forall|b: int| 0 <= b < before.blocks@.len() && b != cur.0 implies #[trigger] after.blocks@[b]
        == before.blocks@[b] by {
        assert(mid.blocks@[b] == before.blocks@[b]);
        assert(after.blocks@[b] == mid.blocks@[b]);
    }
    assert forall|b: int|
        0 <= b < after.blocks@.len() && (b >= before.blocks@.len() || b == cur.0) && pending2.contains(
            b,
        ) implies #[trigger] after.open_block(b) by {
        if b != end.0 {
            assert(b < mid.blocks@.len());
            assert(mid.open_block(b));
            lemma_grown_keeps_block(mid, after, b);
        }
    }
    assert forall|b: int|
        0 <= b < after.blocks@.len() && (b >= before.blocks@.len() || b == cur.0)
            && !pending2.contains(b) implies #[trigger] after.closed_block(b) by {
        if b >= mid.blocks@.len() || b == at.0 {
        } else {
            assert(mid.closed_block(b));
            lemma_grown_keeps_block(mid, after, b);
        }
    }
}

/// Adding instructions that end no block to a pending block leaves it
/// pending.
pub proof fn lemma_partly_extended(
    before: IrFunc,
    mid: IrFunc,
    after: IrFunc,
    cur: BBId,
    pending: Set<int>,
    at: BBId,
)
    requires
        mid.wf(),
        mid.partly_lowered_from(before, cur, pending),
        at.0 < mid.blocks@.len(),
        at.0 >= before.blocks@.len() || at == cur,
        pending.contains(at.0 as int),
        after.extended_from(mid, at),
        after.open_block(at.0 as int),
    ensures
        after.partly_lowered_from(before, cur, pending),
{
    lemma_extended_is_lowered(mid, after, at);
    lemma_partly_lowered(before, mid, after, cur, pending, at, at);
    assert(pending.remove(at.0 as int).insert(at.0 as int) =~= pending);
}

/// A new block is pending.
pub proof fn lemma_partly_block_added(
    before: IrFunc,
    mid: IrFunc,
    after: IrFunc,
    cur: BBId,
    pending: Set<int>,
    id: BBId,
)
    requires
        mid.wf(),
        mid.partly_lowered_from(before, cur, pending),
        after.block_added(mid, id),
    ensures
        after.partly_lowered_from(before, cur, pending.insert(id.0 as int)),
{
    lemma_block_added(mid, after, id);
    assert(mid.blocks.len() == mid.blocks@.len());
    assert forall|b: int| 0 <= b < before.blocks@.len() && b != cur.0 implies #[trigger] after.blocks@[b]
        == before.blocks@[b] by {
        assert(mid.blocks@[b] == before.blocks@[b]);
        assert(after.blocks@[b] == mid.blocks@[b]);
    }
    assert forall|b: int|
        0 <= b < after.blocks@.len() && (b >= before.blocks@.len() || b == cur.0) && pending.insert(
            id.0 as int,
        ).contains(b) implies #[trigger] after.open_block(b) by {
        if b != id.0 {
            assert(mid.open_block(b));
        }
    }
    assert forall|b: int|
        0 <= b < after.blocks@.len() && (b >= before.blocks@.len() || b == cur.0) && !pending.insert(
            id.0 as int,
        ).contains(b) implies #[trigger] after.closed_block(b) by {
        assert(mid.closed_block(b));
    }
}

/// A pending block that got its terminator is pending no more.
pub proof fn lemma_partly_closed(
    before: IrFunc,
    mid: IrFunc,
    after: IrFunc,
    cur: BBId,
    pending: Set<int>,
    at: BBId,
)
    requires
        mid.wf(),
        mid.partly_lowered_from(before, cur, pending),
        at.0 < mid.blocks@.len(),
        at.0 >= before.blocks@.len() || at == cur,
        after.extended_from(mid, at),
        after.closed_block(at.0 as int),
    ensures
        after.partly_lowered_from(before, cur, pending.remove(at.0 as int)),
{
    assert forall|b: int| 0 <= b < before.blocks@.len() && b != cur.0 implies #[trigger] after.blocks@[b]
        == before.blocks@[b] by {
        assert(mid.blocks@[b] == before.blocks@[b]);
        assert(after.blocks@[b] == mid.blocks@[b]);
    }
    assert forall|b: int|
        0 <= b < after.blocks@.len() && (b >= before.blocks@.len() || b == cur.0) && pending.remove(
            at.0 as int,
        ).contains(b) implies #[trigger] after.open_block(b) by {
        assert(mid.open_block(b));
        lemma_grown_keeps_block(mid, after, b);
    }
    assert forall|b: int|
        0 <= b < after.blocks@.len() && (b >= before.blocks@.len() || b == cur.0) && !pending.remove(
            at.0 as int,
        ).contains(b) implies #[trigger] after.closed_block(b) by {
        if b != at.0 {
            assert(mid.closed_block(b));
            lemma_grown_keeps_block(mid, after, b);
        }
    }
}

/// When one new block alone is pending, the piece of code is lowered.
pub proof fn lemma_partly_done(before: IrFunc, after: IrFunc, cur: BBId, end: BBId)
    requires
        after.partly_lowered_from(before, cur, set![end.0 as int]),
        end == cur || end.0 >= before.blocks@.len(),
        end.0 < after.blocks@.len(),
    ensures
        after.lowered_from(before, cur, end),
{
}

/// A function extends itself.
pub proof fn lemma_extended_refl(f: IrFunc, cur: BBId)
    ensures
        f.extended_from(f, cur),
{
}

/// Extending twice is extending.
pub proof fn lemma_extended_trans(first: IrFunc, second: IrFunc, third: IrFunc, cur: BBId)
    requires
        second.extended_from(first, cur),
        third.extended_from(second, cur),
    ensures
        third.extended_from(first, cur),
{
    assert forall|b: int| 0 <= b < first.blocks@.len() && b != cur.0 implies #[trigger] third.blocks@[b]
        == first.blocks@[b] by {
        assert(second.blocks@[b] == first.blocks@[b]);
        assert(third.blocks@[b] == second.blocks@[b]);
    }
}

} // verus!
