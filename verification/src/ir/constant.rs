use vstd::prelude::*;

use crate::ast::{LiteralExpr, LiteralKind};
use crate::ast_view::{lemma_literals_view, literals_view, LiteralExprView, LiteralKindView};
use crate::ir::ty::{lower_ty, IrTy, IrTyView};

verus! {

/// A value known when the program is compiled: an integer, or an array
/// with its type and its elements.
#[derive(Debug)]
pub enum Constant {
    Int(i32),
    Array { ty: IrTy, elems: Vec<Constant> },
}

pub enum ConstantView {
    Int(i32),
    Array { ty: IrTyView, elems: Seq<ConstantView> },
}

/// The views of a vector of constants.
pub open spec fn constants_view(elems: Vec<Constant>) -> Seq<ConstantView>
    decreases elems,
{
    Seq::new(
        elems@.len(),
        |i: int|
            if 0 <= i < elems@.len() {
                elems@[i].view()
            } else {
                arbitrary()
            },
    )
}

pub proof fn lemma_constants_view(elems: Vec<Constant>)
    ensures
        constants_view(elems).len() == elems@.len(),
        forall|i: int| 0 <= i < elems@.len() ==> #[trigger] constants_view(elems)[i] == elems@[i]@,
{
}

/// The zero of a type: the integer zero, or for an array an array of as
/// many zeros as it has elements.
pub open spec fn zero_constant(ty: IrTyView) -> ConstantView
    decreases ty,
{
    match ty {
        IrTyView::Array(siz, elem_ty) => ConstantView::Array {
            ty,
            elems: Seq::new(siz as nat, |i: int| zero_constant(*elem_ty)),
        },
        _ => ConstantView::Int(0),
    }
}

/// The constant that a literal stands for: an array literal keeps its type
/// and its elements.
pub open spec fn literal_constant(lit: LiteralExprView) -> ConstantView
    decreases lit,
{
    match lit.kind {
        LiteralKindView::Integer(x) => ConstantView::Int(x),
        LiteralKindView::Array(_, vals) => ConstantView::Array {
            ty: lower_ty(lit.ty),
            elems: Seq::new(
                vals.len(),
                |i: int|
                    if 0 <= i < vals.len() {
                        literal_constant(vals[i])
                    } else {
                        arbitrary()
                    },
            ),
        },
    }
}

/// Every array literal in the literal has a type without an unknown part.
pub open spec fn literal_typed(lit: LiteralExprView) -> bool
    decreases lit,
{
    match lit.kind {
        LiteralKindView::Integer(_) => true,
        LiteralKindView::Array(_, vals) => {
            &&& lit.ty.known()
            &&& forall|i: int| 0 <= i < vals.len() ==> literal_typed(#[trigger] vals[i])
        },
    }
}

impl Constant {
    pub open spec fn view(&self) -> ConstantView
        decreases self,
    {
        match self {
            Constant::Int(x) => ConstantView::Int(*x),
            Constant::Array { ty, elems } => ConstantView::Array {
                ty: ty@,
                elems: constants_view(*elems),
            },
        }
    }

    /// The constant of an integer.
    pub fn from_i32(value: i32) -> (out: Constant)
        ensures
            out == Constant::Int(value),
    {
        Constant::Int(value)
    }

    /// The zero of a type.
    #[verifier::loop_isolation(false)]
    pub fn build_zero(ty: &IrTy) -> (out: Constant)
        ensures
            out@ == zero_constant(ty@),
        decreases ty,
    {
        match ty {
            IrTy::Array(siz, elem_ty) => {
                let mut elems: Vec<Constant> = Vec::new();
                let mut i: usize = 0;
                while i < *siz
                    invariant
                        i <= *siz,
                        elems.len() == i,
                        forall|j: int| 0 <= j < i ==> #[trigger] elems@[j]@ == zero_constant(elem_ty@),
                    decreases *siz - i,
                {
                    elems.push(Self::build_zero(elem_ty));
                    i += 1;
                }
                proof {
                    lemma_constants_view(elems);
                    assert(ty@ == IrTyView::Array(*siz, Box::new(elem_ty@)));
                    assert(constants_view(elems) =~= Seq::new(
                        *siz as nat,
                        |i: int| zero_constant(elem_ty@),
                    ));
                }
                Constant::Array { ty: ty.clone(), elems }
            },
            _ => {
                proof {
                    if let IrTy::Func(f) = ty {
                        assert(f@ is Func);
                    }
                }
                Constant::Int(0)
            },
        }
    }

    /// The constant that a folded literal stands for.
    pub fn from_literal(literal: &LiteralExpr) -> (out: Constant)
        requires
            literal_typed(literal@),
        ensures
            out@ == literal_constant(literal@),
        decreases literal,
    {
        match &literal.kind {
            LiteralKind::Integer(x) => Constant::Int(*x),
            LiteralKind::Array(_, vals) => {
                proof {
                    lemma_literals_view(*vals);
                }
                let mut elems: Vec<Constant> = Vec::new();
                let mut i: usize = 0;
                while i < vals.len()
                    invariant
                        i <= vals.len(),
                        elems.len() == i,
                        literal.kind matches LiteralKind::Array(_, vs) && vs == vals,
                        literal_typed(literal@),
                        forall|j: int|
                            0 <= j < i ==> #[trigger] elems@[j]@ == literal_constant(vals@[j]@),
                    decreases vals.len() - i,
                {
                    proof {
                        lemma_literals_view(*vals);
                        assert(literals_view(*vals)[i as int] == vals@[i as int]@);
                        assert(literal@.kind == literal.kind@);
                        assert(literal@.kind->Array_1 == literals_view(*vals));
                        assert(literal_typed(literals_view(*vals)[i as int]));
                    }
                    elems.push(Constant::from_literal(&vals[i]));
                    i += 1;
                }
                let out = Constant::Array { ty: IrTy::from_ast(&literal.ty), elems };
                proof {
                    lemma_constants_view(elems);
                    lemma_literals_view(*vals);
                    assert(literal@.kind == literal.kind@);
                    assert(literal@.kind->Array_1 == literals_view(*vals));
                    assert(literal@.ty.known());
                    assert forall|k: int| 0 <= k < elems@.len() implies constants_view(elems)[k]
                        == literal_constant(literal@)->elems[k] by {
                        assert(literals_view(*vals)[k] == vals@[k]@);
                    }
                    assert(out@->elems =~= literal_constant(literal@)->elems);
                }
                out
            },
        }
    }
}

impl Clone for Constant {
    fn clone(&self) -> (out: Self)
        ensures
            out@ == self@,
        decreases self,
    {
        match self {
            Constant::Int(x) => Constant::Int(*x),
            Constant::Array { ty, elems } => {
                let mut copies: Vec<Constant> = Vec::new();
                let mut i: usize = 0;
                while i < elems.len()
                    invariant
                        i <= elems.len(),
                        copies.len() == i,
                        self matches Constant::Array { elems: es, .. } && es == elems,
                        forall|j: int| 0 <= j < i ==> #[trigger] copies@[j]@ == elems@[j]@,
                    decreases elems.len() - i,
                {
                    copies.push(elems[i].clone());
                    i += 1;
                }
                proof {
                    lemma_constants_view(copies);
                    lemma_constants_view(*elems);
                    assert(constants_view(copies) =~= constants_view(*elems));
                }
                Constant::Array { ty: ty.clone(), elems: copies }
            },
        }
    }
}

} // verus!
