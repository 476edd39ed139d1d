//! The instructions that an expression is lowered to, as a function of the
//! expression, of what its names stand for, and of the handle that the
//! first of these instructions takes.

use vstd::prelude::*;

use crate::ast::UnaryOp;
use crate::ast_view::{
    AssignExprView, BinaryExprView, CallExprView, ExprView, LValView, TyView, UnaryExprView,
};
use crate::context::{operand_of, IdInfo};
use crate::ir::arena::{FuncId, InstId};
use crate::ir::constant::ConstantView;
use crate::ir::inst::{lower_op, BinaryInstOp, InstKindView, InstView, OperandView};
use crate::ir::ty::{lower_ty, IrTyView};
use crate::scope::scopes_find;

verus! {

/// What expressions are lowered against: what each name stands for, and
/// what each function of the module returns.
pub struct Names {
    pub scopes: Seq<Map<Seq<char>, IdInfo>>,
    pub rets: Seq<IrTyView>,
}

pub open spec fn zero_view() -> OperandView {
    OperandView::Const(ConstantView::Int(0))
}

/// The result of the instruction with the handle `id`.
pub open spec fn result_of(id: nat) -> OperandView {
    OperandView::Inst(InstId(id as usize))
}

/// The handles of `count` instructions from `first` on.
pub open spec fn handles(first: nat, count: nat) -> Seq<InstId> {
    Seq::new(count, |i: int| InstId((first + i) as usize))
}

pub open spec fn ptr_view(ty: IrTyView) -> IrTyView {
    IrTyView::Ptr(Box::new(ty))
}

/// The instructions of an expression, the first with the handle `next`,
/// and the operand that holds its value.
pub open spec fn expr_code(names: Names, next: nat, e: ExprView) -> (Seq<InstView>, OperandView)
    decreases e, 1nat,
{
    match e {
        ExprView::LVal(l) => place_code(names, next, l, false),
        ExprView::Assign(a) => assign_code(names, next, a),
        ExprView::Literal(l) => (
            Seq::empty(),
            OperandView::Const(
                ConstantView::Int(
                    match l.get_int() {
                        Some(x) => x,
                        None => 0,
                    },
                ),
            ),
        ),
        ExprView::Unary(u) => unary_code(names, next, u),
        ExprView::Binary(b) => binary_code(names, next, b),
        ExprView::Call(c) => call_code(names, next, c),
    }
}

/// The instructions of the expressions from index `from` on, one after
/// the other, and their operands.
pub open spec fn exprs_code(names: Names, next: nat, exprs: Seq<ExprView>, from: nat) -> (
    Seq<InstView>,
    Seq<OperandView>,
)
    decreases exprs, exprs.len() - from,
{
    if from >= exprs.len() {
        (Seq::empty(), Seq::empty())
    } else {
        let (code, operand) = expr_code(names, next, exprs[from as int]);
        let (rest, operands) = exprs_code(names, next + code.len(), exprs, from + 1);
        (code + rest, seq![operand] + operands)
    }
}

/// The instructions of a use of a place. With subscripts, the address is
/// computed from the operand of the name and the subscripts, after a
/// leading index zero unless the name is a parameter. The value is then
/// loaded, unless the place is written to or is an array: of those the
/// address is the operand.
pub open spec fn place_code(names: Names, next: nat, l: LValView, is_lvalue: bool) -> (
    Seq<InstView>,
    OperandView,
)
    decreases l, 0nat,
{
    let base = match scopes_find(names.scopes, l.ident.name) {
        Some(info) => operand_of(info)@,
        None => arbitrary(),
    };
    let (code, addr) = match l.subs {
        Some(s) => {
            let (code, indices) = exprs_code(names, next, s.subs, 0);
            let lead = if base is Param {
                Seq::empty()
            } else {
                seq![zero_view()]
            };
            let gep = InstView {
                kind: InstKindView::GEP { ptr: base, indices: lead + indices },
                ty: ptr_view(lower_ty(l.ty)),
            };
            (code.push(gep), result_of(next + code.len()))
        },
        None => (Seq::empty(), base),
    };
    if is_lvalue || l.ty is Array {
        (code, addr)
    } else {
        (
            code.push(InstView { kind: InstKindView::Load { addr }, ty: lower_ty(l.ty) }),
            result_of(next + code.len()),
        )
    }
}

/// The instructions of an assignment: the address of the target, the
/// value, a store. Its operand is the value.
pub open spec fn assign_code(names: Names, next: nat, a: AssignExprView) -> (
    Seq<InstView>,
    OperandView,
)
    decreases a, 0nat,
{
    match *a.lhs {
        ExprView::LVal(l) => {
            let (target, addr) = place_code(names, next, l, true);
            let (value, data) = expr_code(names, next + target.len(), *a.rhs);
            (
                (target + value).push(
                    InstView { kind: InstKindView::Store { addr, data }, ty: IrTyView::Void },
                ),
                data,
            )
        },
        _ => arbitrary(),
    }
}

/// The instructions of a unary operator: `-x` is `0 - x`; `+x` is `x`;
/// `!x` is `x == 0`, after a boolean `x` was widened to 32 bits.
pub open spec fn unary_code(names: Names, next: nat, u: UnaryExprView) -> (Seq<InstView>, OperandView)
    decreases u, 0nat,
{
    let (code, val) = expr_code(names, next, *u.sub_expr);
    match u.op {
        UnaryOp::Neg => (
            code.push(
                InstView {
                    kind: InstKindView::Binary {
                        op: BinaryInstOp::Sub,
                        left: zero_view(),
                        right: val,
                    },
                    ty: lower_ty(u.ty),
                },
            ),
            result_of(next + code.len()),
        ),
        UnaryOp::Pos => (code, val),
        UnaryOp::Not => {
            let (code, val) = if u.sub_expr.ty() is Bool {
                (
                    code.push(
                        InstView {
                            kind: InstKindView::ZExt { ori_val: val, target_ty: IrTyView::Int(32) },
                            ty: IrTyView::Int(32),
                        },
                    ),
                    result_of(next + code.len()),
                )
            } else {
                (code, val)
            };
            (
                code.push(
                    InstView {
                        kind: InstKindView::Binary {
                            op: BinaryInstOp::Eq,
                            left: val,
                            right: zero_view(),
                        },
                        ty: IrTyView::Int(1),
                    },
                ),
                result_of(next + code.len()),
            )
        },
    }
}

/// The instructions of a binary operator: the left operand, the right
/// operand, then the operator on both, of the type of the expression.
pub open spec fn binary_code(names: Names, next: nat, b: BinaryExprView) -> (
    Seq<InstView>,
    OperandView,
)
    decreases b, 0nat,
{
    let (left_code, left) = expr_code(names, next, *b.lhs);
    let (right_code, right) = expr_code(names, next + left_code.len(), *b.rhs);
    let code = left_code + right_code;
    (
        code.push(
            InstView {
                kind: InstKindView::Binary { op: lower_op(b.op), left, right },
                ty: lower_ty(b.ty),
            },
        ),
        result_of(next + code.len()),
    )
}

/// The instructions of one argument, and the operand that is passed: of an
/// argument that is an array, the address of its first element, computed
/// with the indices zero and zero.
pub open spec fn arg_code(names: Names, next: nat, arg: ExprView) -> (Seq<InstView>, OperandView)
    decreases arg, 2nat,
{
    let (code, operand) = expr_code(names, next, arg);
    match arg.ty() {
        TyView::Array { elem_ty, .. } => (
            code.push(
                InstView {
                    kind: InstKindView::GEP { ptr: operand, indices: seq![zero_view(), zero_view()] },
                    ty: ptr_view(lower_ty(*elem_ty)),
                },
            ),
            result_of(next + code.len()),
        ),
        _ => (code, operand),
    }
}

/// The instructions of the arguments from index `from` on, one after the
/// other, and the operands that are passed.
pub open spec fn args_code(names: Names, next: nat, args: Seq<ExprView>, from: nat) -> (
    Seq<InstView>,
    Seq<OperandView>,
)
    decreases args, args.len() - from,
{
    if from >= args.len() {
        (Seq::empty(), Seq::empty())
    } else {
        let (code, passed) = arg_code(names, next, args[from as int]);
        let (rest, operands) = args_code(names, next + code.len(), args, from + 1);
        (code + rest, seq![passed] + operands)
    }
}

/// The function that a call goes to.
pub open spec fn callee(names: Names, c: CallExprView) -> FuncId {
    match scopes_find(names.scopes, c.func.name) {
        Some(IdInfo::Func(id)) => id,
        _ => arbitrary(),
    }
}

/// The instructions of a call: the arguments, then the call, of the type
/// that the callee returns.
pub open spec fn call_code(names: Names, next: nat, c: CallExprView) -> (Seq<InstView>, OperandView)
    decreases c, 0nat,
{
    let (code, args) = args_code(names, next, c.args, 0);
    let func_id = callee(names, c);
    (
        code.push(
            InstView {
                kind: InstKindView::Call { func_id, args },
                ty: names.rets[func_id.0 as int],
            },
        ),
        result_of(next + code.len()),
    )
}

/// A use of an array yields its address, as a use that is written to
/// does: no value is loaded.
pub proof fn lemma_array_place_yields_address(names: Names, next: nat, l: LValView)
    requires
        l.ty is Array,
    ensures
        place_code(names, next, l, false) == place_code(names, next, l, true),
{
}

/// An argument that is an array is passed as a pointer to its first
/// element: the operand passed is the result of an address computation
/// from the array with the indices zero and zero, of the type of a pointer
/// to an element. Any other argument is passed as it is.
pub proof fn lemma_array_argument_decays(names: Names, next: nat, arg: ExprView)
    ensures
        arg.ty() matches TyView::Array { elem_ty, .. } ==> {
            let (code, operand) = expr_code(names, next, arg);
            let (passed_code, passed) = arg_code(names, next, arg);
            &&& passed_code.len() == code.len() + 1
            &&& passed_code.drop_last() == code
            &&& passed_code.last() == (InstView {
                kind: InstKindView::GEP { ptr: operand, indices: seq![zero_view(), zero_view()] },
                ty: ptr_view(lower_ty(*elem_ty)),
            })
            &&& passed == result_of(next + code.len())
        },
        !(arg.ty() is Array) ==> arg_code(names, next, arg) == expr_code(names, next, arg),
{
    match arg.ty() {
        TyView::Array { elem_ty, .. } => {
            let (code, operand) = expr_code(names, next, arg);
            let (passed_code, passed) = arg_code(names, next, arg);
            assert(passed_code.drop_last() =~= code);
        },
        _ => {},
    }
}

} // verus!
