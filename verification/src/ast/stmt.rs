use vstd::prelude::*;

use crate::ast::expr::{Expr, ExprV, expr_view};
use crate::ast::{Param, ParamV, Spanned, params_view};
use crate::prelude::Span;
use crate::token::{Token, TokenV};
use crate::toltype::TolType;

verus! {

/// What a statement is.
pub enum StmtKindV {
    NameDeclaration { is_mutable: bool, name: TokenV, ty: Option<TolType>, rhs: ExprV },
    FunctionDeclaration {
        name: TokenV,
        params: Seq<ParamV>,
        params_span: Span,
        ret_ty: Option<TolType>,
        block: ExprV,
    },
    Expression { expr: ExprV },
}

/// A statement together with its span and the symbol it declares.
pub struct StmtV {
    pub kind: StmtKindV,
    pub span: Span,
    pub symbol_id: Option<usize>,
}

/// A statement of the language.
#[derive(Debug)]
pub struct Stmt {
    pub kind: StmtKind,
    pub span: Span,
    pub symbol_id: Option<usize>,
}

/// The kinds of statements.
#[derive(Debug)]
pub enum StmtKind {
    NameDeclaration { is_mutable: bool, name: Token, ty: Option<TolType>, rhs: Expr },
    FunctionDeclaration {
        name: Token,
        params: Spanned<Vec<Param>>,
        ret_ty: Option<TolType>,
        block: Expr,
    },
    Expression { expr: Expr },
}

pub open spec fn stmt_view(s: Stmt) -> StmtV
    decreases s,
{
    StmtV { kind: stmt_kind_view(s.kind), span: s.span, symbol_id: s.symbol_id }
}

pub open spec fn stmt_kind_view(k: StmtKind) -> StmtKindV
    decreases k,
{
    match k {
        StmtKind::NameDeclaration { is_mutable, name, ty, rhs } => StmtKindV::NameDeclaration {
            is_mutable,
            name: name@,
            ty,
            rhs: expr_view(rhs),
        },
        StmtKind::FunctionDeclaration { name, params, ret_ty, block } =>
            StmtKindV::FunctionDeclaration {
            name: name@,
            params: params_view(params.item@),
            params_span: params.span,
            ret_ty,
            block: expr_view(block),
        },
        StmtKind::Expression { expr } => StmtKindV::Expression { expr: expr_view(expr) },
    }
}

impl Stmt {
    pub fn new_name_declaration(
        span: Span,
        is_mutable: bool,
        name: Token,
        ty: Option<TolType>,
        rhs: Expr,
    ) -> (s: Self)
        ensures
            s == (Stmt {
                kind: StmtKind::NameDeclaration { is_mutable, name, ty, rhs },
                span,
                symbol_id: None,
            }),
    {
        Self { kind: StmtKind::NameDeclaration { is_mutable, name, ty, rhs }, span, symbol_id: None }
    }

    pub fn new_expression(span: Span, expr: Expr) -> (s: Self)
        ensures
            s == (Stmt { kind: StmtKind::Expression { expr }, span, symbol_id: None }),
    {
        Self { kind: StmtKind::Expression { expr }, span, symbol_id: None }
    }

    pub fn new_par(
        span: Span,
        name: Token,
        params: Spanned<Vec<Param>>,
        ret_ty: Option<TolType>,
        block: Expr,
    ) -> (s: Self)
        ensures
            s == (Stmt {
                kind: StmtKind::FunctionDeclaration { name, params, ret_ty, block },
                span,
                symbol_id: None,
            }),
    {
        Self {
            kind: StmtKind::FunctionDeclaration { name, params, ret_ty, block },
            span,
            symbol_id: None,
        }
    }

    pub fn kind(&self) -> (k: &StmtKind)
        ensures
            *k == self.kind,
    {
        &self.kind
    }

    pub fn kind_mut(&mut self) -> (k: &mut StmtKind)
        ensures
            *k == old(self).kind,
            *final(self) == (Stmt { kind: *final(k), ..*old(self) }),
    {
        &mut self.kind
    }

    pub fn set_symbol_id(&mut self, id: usize)
        ensures
            *final(self) == (Stmt { symbol_id: Some(id), ..*old(self) }),
    {
        self.symbol_id = Some(id);
    }

    pub fn symbol_id(&self) -> (id: Option<usize>)
        ensures
            id == self.symbol_id,
    {
        self.symbol_id
    }
}

impl View for Stmt {
    type V = StmtV;

    open spec fn view(&self) -> StmtV {
        stmt_view(*self)
    }
}

} // verus!
