use vstd::prelude::*;

use crate::ast::AstTy;
use crate::ast_view::TyView;

verus! {

/// What a construct asked of a type that it did not get.
#[derive(Debug)]
pub enum Expected {
    /// A type equal to this one.
    Type(AstTy),
    Int,
    Bool,
    IntOrBool,
    /// An array or a pointer, to take a subscript.
    Array,
    /// A function of this many parameters.
    ArgCount(usize),
}

/// Why a program was refused. The first error found ends the pass.
#[derive(Debug)]
pub enum SemanticError {
    UnknownName(String),
    DuplicateName(String),
    TypeMismatch { expected: Expected, found: AstTy },
    RequireConstant,
    TooMuchElement,
    IllegalArrayDim,
    CannotModifyConstValue(String),
    RequireLValue,
    ExpectedFunction(String),
    BreakOutsideLoop,
    ContinueOutsideLoop,
}

pub enum ExpectedView {
    Type(TyView),
    Int,
    Bool,
    IntOrBool,
    Array,
    ArgCount(usize),
}

pub enum ErrorView {
    UnknownName(Seq<char>),
    DuplicateName(Seq<char>),
    TypeMismatch { expected: ExpectedView, found: TyView },
    RequireConstant,
    TooMuchElement,
    IllegalArrayDim,
    CannotModifyConstValue(Seq<char>),
    RequireLValue,
    ExpectedFunction(Seq<char>),
    BreakOutsideLoop,
    ContinueOutsideLoop,
}

impl Expected {
    pub open spec fn view(&self) -> ExpectedView {
        match self {
            Expected::Type(ty) => ExpectedView::Type(ty@),
            Expected::Int => ExpectedView::Int,
            Expected::Bool => ExpectedView::Bool,
            Expected::IntOrBool => ExpectedView::IntOrBool,
            Expected::Array => ExpectedView::Array,
            Expected::ArgCount(n) => ExpectedView::ArgCount(*n),
        }
    }
}

impl SemanticError {
    pub open spec fn view(&self) -> ErrorView {
        match self {
            SemanticError::UnknownName(name) => ErrorView::UnknownName(name@),
            SemanticError::DuplicateName(name) => ErrorView::DuplicateName(name@),
            SemanticError::TypeMismatch { expected, found } => ErrorView::TypeMismatch {
                expected: expected@,
                found: found@,
            },
            SemanticError::RequireConstant => ErrorView::RequireConstant,
            SemanticError::TooMuchElement => ErrorView::TooMuchElement,
            SemanticError::IllegalArrayDim => ErrorView::IllegalArrayDim,
            SemanticError::CannotModifyConstValue(name) => ErrorView::CannotModifyConstValue(name@),
            SemanticError::RequireLValue => ErrorView::RequireLValue,
            SemanticError::ExpectedFunction(name) => ErrorView::ExpectedFunction(name@),
            SemanticError::BreakOutsideLoop => ErrorView::BreakOutsideLoop,
            SemanticError::ContinueOutsideLoop => ErrorView::ContinueOutsideLoop,
        }
    }
}

} // verus!
