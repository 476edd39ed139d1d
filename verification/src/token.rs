use vstd::prelude::*;

use crate::ast::{BinaryOp, PrimitiveTy, TyIdentKind, UnaryOp};

verus! {

/// The kinds of token of the source language.
#[derive(Debug, Clone, Copy, PartialEq, Eq, Structural)]
pub enum TokenType {
    Ident,
    IntLiteral,
    ConstKw,
    IntTy,
    VoidTy,
    If,
    Else,
    While,
    Break,
    Continue,
    Return,
    Assign,
    Plus,
    Minus,
    Mul,
    Div,
    Mod,
    Eq,
    Ne,
    Lt,
    Gt,
    Le,
    Ge,
    Not,
    And,
    Or,
    LParen,
    RParen,
    LBracket,
    RBracket,
    LBrace,
    RBrace,
    Comma,
    Semicolon,
    Eof,
}

impl TokenType {
    /// The tokens that have a precedence: the binary operators and `=`.
    pub open spec fn has_prec(self) -> bool {
        self.spec_to_binary_op() is Some || self == TokenType::Assign
    }

    pub open spec fn spec_prec(self) -> u32 {
        match self {
            TokenType::Mul | TokenType::Div => 20,
            TokenType::Plus | TokenType::Minus | TokenType::Mod => 10,
            TokenType::Lt | TokenType::Gt | TokenType::Le | TokenType::Ge => 5,
            TokenType::Eq | TokenType::Ne => 4,
            TokenType::And => 3,
            TokenType::Or => 2,
            _ => 1,
        }
    }

    pub open spec fn spec_to_binary_op(self) -> Option<BinaryOp> {
        match self {
            TokenType::Plus => Some(BinaryOp::Add),
            TokenType::Minus => Some(BinaryOp::Sub),
            TokenType::Mul => Some(BinaryOp::Mul),
            TokenType::Div => Some(BinaryOp::Div),
            TokenType::Mod => Some(BinaryOp::Mod),
            TokenType::Eq => Some(BinaryOp::Eq),
            TokenType::Ne => Some(BinaryOp::Ne),
            TokenType::Lt => Some(BinaryOp::Lt),
            TokenType::Gt => Some(BinaryOp::Gt),
            TokenType::Le => Some(BinaryOp::Le),
            TokenType::Ge => Some(BinaryOp::Ge),
            TokenType::And => Some(BinaryOp::And),
            TokenType::Or => Some(BinaryOp::Or),
            _ => None,
        }
    }

    pub open spec fn spec_to_unary_op(self) -> Option<UnaryOp> {
        match self {
            TokenType::Plus => Some(UnaryOp::Pos),
            TokenType::Minus => Some(UnaryOp::Neg),
            TokenType::Not => Some(UnaryOp::Not),
            _ => None,
        }
    }

    pub open spec fn spec_to_ty_ident(self) -> Option<TyIdentKind> {
        match self {
            TokenType::IntTy => Some(TyIdentKind::Primitive(PrimitiveTy::Integer)),
            TokenType::VoidTy => Some(TyIdentKind::Void),
            _ => None,
        }
    }

    /// Whether the token may stand between two operands: a binary operator,
    /// `=`, or `!`.
    pub fn is_binary_op(&self) -> (out: bool)
        ensures
            out == (self.has_prec() || *self == TokenType::Not),
    {
        matches!(
            self,
            TokenType::Assign | TokenType::Plus | TokenType::Minus | TokenType::Mul
                | TokenType::Div | TokenType::Mod | TokenType::Eq | TokenType::Ne | TokenType::Lt
                | TokenType::Gt | TokenType::Le | TokenType::Ge | TokenType::Not | TokenType::And
                | TokenType::Or
        )
    }

    /// The binding strength of a binary operator or of `=`; a larger number
    /// binds tighter.
    pub fn prec(&self) -> (out: u32)
        requires
            self.has_prec(),
        ensures
            out == self.spec_prec(),
    {
        match self {
            TokenType::Mul | TokenType::Div => 20,
            TokenType::Plus | TokenType::Minus | TokenType::Mod => 10,
            TokenType::Lt | TokenType::Gt | TokenType::Le | TokenType::Ge => 5,
            TokenType::Eq | TokenType::Ne => 4,
            TokenType::And => 3,
            TokenType::Or => 2,
            _ => 1,
        }
    }

    /// Every binary operator groups to the left; `=` groups to the right.
    pub fn is_left_assoc(&self) -> (out: bool)
        requires
            self.has_prec(),
        ensures
            out == (*self != TokenType::Assign),
    {
        !matches!(self, TokenType::Assign)
    }

    pub fn to_binary_op(&self) -> (out: Option<BinaryOp>)
        ensures
            out == self.spec_to_binary_op(),
    {
        match self {
            TokenType::Plus => Some(BinaryOp::Add),
            TokenType::Minus => Some(BinaryOp::Sub),
            TokenType::Mul => Some(BinaryOp::Mul),
            TokenType::Div => Some(BinaryOp::Div),
            TokenType::Mod => Some(BinaryOp::Mod),
            TokenType::Eq => Some(BinaryOp::Eq),
            TokenType::Ne => Some(BinaryOp::Ne),
            TokenType::Lt => Some(BinaryOp::Lt),
            TokenType::Gt => Some(BinaryOp::Gt),
            TokenType::Le => Some(BinaryOp::Le),
            TokenType::Ge => Some(BinaryOp::Ge),
            TokenType::And => Some(BinaryOp::And),
            TokenType::Or => Some(BinaryOp::Or),
            _ => None,
        }
    }

    pub fn to_ty_ident(&self) -> (out: Option<TyIdentKind>)
        ensures
            out == self.spec_to_ty_ident(),
    {
        match self {
            TokenType::IntTy => Some(TyIdentKind::Primitive(PrimitiveTy::Integer)),
            TokenType::VoidTy => Some(TyIdentKind::Void),
            _ => None,
        }
    }

    pub fn is_unary_op(&self) -> (out: bool)
        ensures
            out == self.spec_to_unary_op() is Some,
    {
        matches!(self, TokenType::Minus | TokenType::Plus | TokenType::Not)
    }

    pub fn to_unary_op(&self) -> (out: Option<UnaryOp>)
        ensures
            out == self.spec_to_unary_op(),
    {
        match self {
            TokenType::Plus => Some(UnaryOp::Pos),
            TokenType::Minus => Some(UnaryOp::Neg),
            TokenType::Not => Some(UnaryOp::Not),
            _ => None,
        }
    }

    pub fn is_ty(&self) -> (out: bool)
        ensures
            out == self.spec_to_ty_ident() is Some,
    {
        matches!(self, TokenType::IntTy | TokenType::VoidTy)
    }
}

} // verus!
