use vstd::prelude::*;

use crate::ast::AstTy;
use crate::ast_view::{lemma_tys_view, tys_view, TyView};

verus! {

/// A type of the intermediate representation. A boolean is an integer of
/// one bit.
#[derive(Debug)]
pub enum IrTy {
    Void,
    Int(usize),
    Func(Box<FuncTy>),
    Array(usize, Box<IrTy>),
    Ptr(Box<IrTy>),
}

#[derive(Debug)]
pub struct FuncTy {
    pub ret_ty: IrTy,
    pub params_ty: Vec<IrTy>,
}

pub enum IrTyView {
    Void,
    Int(usize),
    Func { ret_ty: Box<IrTyView>, params_ty: Seq<IrTyView> },
    Array(usize, Box<IrTyView>),
    Ptr(Box<IrTyView>),
}

/// The views of a vector of types.
pub open spec fn ir_tys_view(tys: Vec<IrTy>) -> Seq<IrTyView>
    decreases tys,
{
    Seq::new(
        tys@.len(),
        |i: int|
            if 0 <= i < tys@.len() {
                tys@[i].view()
            } else {
                arbitrary()
            },
    )
}

pub proof fn lemma_ir_tys_view(tys: Vec<IrTy>)
    ensures
        ir_tys_view(tys).len() == tys@.len(),
        forall|i: int| 0 <= i < tys@.len() ==> #[trigger] ir_tys_view(tys)[i] == tys@[i]@,
{
}

/// The type that a type of the source language is lowered to: an integer
/// has 32 bits and a boolean has one.
pub open spec fn lower_ty(ty: TyView) -> IrTyView
    recommends
        ty.known(),
    decreases ty,
{
    match ty {
        TyView::Unknown | TyView::Void => IrTyView::Void,
        TyView::Int => IrTyView::Int(32),
        TyView::Bool => IrTyView::Int(1),
        TyView::Func { ret_ty, param_tys } => IrTyView::Func {
            ret_ty: Box::new(lower_ty(*ret_ty)),
            params_ty: Seq::new(
                param_tys.len(),
                |i: int|
                    if 0 <= i < param_tys.len() {
                        lower_ty(param_tys[i])
                    } else {
                        arbitrary()
                    },
            ),
        },
        TyView::Array { siz, elem_ty } => IrTyView::Array(siz, Box::new(lower_ty(*elem_ty))),
        TyView::Ptr(elem_ty) => IrTyView::Ptr(Box::new(lower_ty(*elem_ty))),
    }
}

impl FuncTy {
    pub open spec fn view(&self) -> IrTyView
        decreases self,
    {
        IrTyView::Func { ret_ty: Box::new(self.ret_ty.view()), params_ty: ir_tys_view(self.params_ty) }
    }
}

impl Clone for FuncTy {
    fn clone(&self) -> (out: Self)
        ensures
            out@ == self@,
        decreases self,
    {
        let ret_ty = self.ret_ty.clone();
        let mut params: Vec<IrTy> = Vec::new();
        let mut i: usize = 0;
        while i < self.params_ty.len()
            invariant
                i <= self.params_ty.len(),
                params.len() == i,
                forall|j: int| 0 <= j < i ==> #[trigger] params@[j]@ == self.params_ty@[j]@,
            decreases self.params_ty.len() - i,
        {
            params.push(self.params_ty[i].clone());
            i += 1;
        }
        proof {
            lemma_ir_tys_view(params);
            lemma_ir_tys_view(self.params_ty);
            assert(ir_tys_view(params) =~= ir_tys_view(self.params_ty));
        }
        FuncTy { ret_ty, params_ty: params }
    }
}

impl IrTy {
    pub open spec fn view(&self) -> IrTyView
        decreases self,
    {
        match self {
            IrTy::Void => IrTyView::Void,
            IrTy::Int(bits) => IrTyView::Int(*bits),
            IrTy::Func(f) => f.view(),
            IrTy::Array(siz, elem_ty) => IrTyView::Array(*siz, Box::new(elem_ty.view())),
            IrTy::Ptr(elem_ty) => IrTyView::Ptr(Box::new(elem_ty.view())),
        }
    }

    /// The integer type of 32 bits.
    pub fn int32() -> (out: IrTy)
        ensures
            out@ == IrTyView::Int(32),
    {
        IrTy::Int(32)
    }

    /// The boolean type, an integer of one bit.
    pub fn int1() -> (out: IrTy)
        ensures
            out@ == IrTyView::Int(1),
    {
        IrTy::Int(1)
    }

    /// The type of a pointer to `ty`.
    pub fn ptr_of(ty: &IrTy) -> (out: IrTy)
        ensures
            out@ == IrTyView::Ptr(Box::new(ty@)),
    {
        IrTy::Ptr(Box::new(ty.clone()))
    }

    pub fn as_array(&self) -> (out: Option<(&usize, &Box<IrTy>)>)
        ensures
            match out {
                Some((siz, elem_ty)) => *self == IrTy::Array(*siz, *elem_ty),
                None => !(self is Array),
            },
    {
        match self {
            IrTy::Array(siz, elem_ty) => Some((siz, elem_ty)),
            _ => None,
        }
    }

    pub fn as_func(&self) -> (out: Option<&FuncTy>)
        ensures
            match out {
                Some(f) => *self == IrTy::Func(Box::new(*f)),
                None => !(self is Func),
            },
    {
        match self {
            IrTy::Func(f) => Some(f),
            _ => None,
        }
    }

    /// Lowers a type of the source language.
    pub fn from_ast(ast_ty: &AstTy) -> (out: IrTy)
        requires
            ast_ty@.known(),
        ensures
            out@ == lower_ty(ast_ty@),
        decreases ast_ty,
    {
        match ast_ty {
            AstTy::Void | AstTy::Unknown => IrTy::Void,
            AstTy::Int => IrTy::Int(32),
            AstTy::Bool => IrTy::Int(1),
            AstTy::Func { ret_ty, param_tys } => {
                proof {
                    lemma_tys_view(*param_tys);
                    assert(ast_ty@->param_tys == tys_view(*param_tys));
                    assert(*ast_ty@->ret_ty == ret_ty@);
                }
                let ret = IrTy::from_ast(ret_ty);
                let mut params: Vec<IrTy> = Vec::new();
                let mut i: usize = 0;
                while i < param_tys.len()
                    invariant
                        i <= param_tys.len(),
                        params.len() == i,
                        ast_ty matches AstTy::Func { param_tys: ps, .. } && ps == param_tys,
                        ast_ty@.known(),
                        forall|j: int|
                            0 <= j < i ==> #[trigger] params@[j]@ == lower_ty(param_tys@[j]@),
                    decreases param_tys.len() - i,
                {
                    proof {
                        lemma_tys_view(*param_tys);
                        assert(tys_view(*param_tys)[i as int] == param_tys@[i as int]@);
                        assert(ast_ty@->param_tys == tys_view(*param_tys));
                        assert(tys_view(*param_tys)[i as int].known());
                        assert(decreases_to!(param_tys => param_tys[i as int]));
                    }
                    params.push(IrTy::from_ast(&param_tys[i]));
                    i += 1;
                }
                let func_ty = FuncTy { ret_ty: ret, params_ty: params };
                let ghost func_view = func_ty@;
                let out = IrTy::Func(Box::new(func_ty));
                proof {
                    assert(out@ == func_view);
                    assert(func_view->params_ty == ir_tys_view(params));
                    assert(func_view->ret_ty == ret@);
                    lemma_ir_tys_view(params);
                    lemma_tys_view(*param_tys);
                    assert(ast_ty@->param_tys == tys_view(*param_tys));
                    assert forall|k: int| 0 <= k < params@.len() implies ir_tys_view(params)[k]
                        == lower_ty(ast_ty@)->params_ty[k] by {
                        assert(tys_view(*param_tys)[k] == param_tys@[k]@);
                    }
                    assert(out@->params_ty =~= lower_ty(ast_ty@)->params_ty);
                    assert(*lower_ty(ast_ty@)->ret_ty == lower_ty(ret_ty@));
                }
                out
            },
            AstTy::Array { siz, elem_ty } => IrTy::Array(*siz, Box::new(IrTy::from_ast(elem_ty))),
            AstTy::Ptr(x) => IrTy::Ptr(Box::new(IrTy::from_ast(x))),
        }
    }
}

impl Clone for IrTy {
    fn clone(&self) -> (out: Self)
        ensures
            out@ == self@,
        decreases self,
    {
        match self {
            IrTy::Void => IrTy::Void,
            IrTy::Int(bits) => IrTy::Int(*bits),
            IrTy::Func(f) => IrTy::Func(Box::new((**f).clone())),
            IrTy::Array(siz, elem_ty) => IrTy::Array(*siz, Box::new((**elem_ty).clone())),
            IrTy::Ptr(elem_ty) => IrTy::Ptr(Box::new((**elem_ty).clone())),
        }
    }
}

} // verus!
