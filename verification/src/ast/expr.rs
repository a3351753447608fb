use vstd::prelude::*;

use crate::ast::stmt::{Stmt, StmtV, stmt_view};
use crate::prelude::Span;
use crate::text::{push_str, push_string};
use crate::token::{Token, TokenV};

verus! {

/// What an expression is.
pub enum ExprKindV {
    Integer(TokenV),
    Float(TokenV),
    Identifier(TokenV),
    Binary { lhs: Box<ExprV>, rhs: Box<ExprV>, op: TokenV },
    Block { statements: Seq<StmtV> },
}

/// An expression together with its span and the symbol it was resolved to.
pub struct ExprV {
    pub kind: ExprKindV,
    pub span: Span,
    pub symbol_id: Option<usize>,
}

/// An expression of the language.
#[derive(Debug)]
pub struct Expr {
    pub kind: ExprKind,
    pub span: Span,
    pub symbol_id: Option<usize>,
}

/// The kinds of expressions.
#[derive(Debug)]
pub enum ExprKind {
    Integer(Token),
    Float(Token),
    Identifier(Token),
    Binary { lhs: Box<Expr>, rhs: Box<Expr>, op: Token },
    Block { statements: Vec<Stmt> },
}

pub open spec fn expr_view(e: Expr) -> ExprV
    decreases e,
{
    ExprV { kind: expr_kind_view(e.kind), span: e.span, symbol_id: e.symbol_id }
}

pub open spec fn expr_kind_view(k: ExprKind) -> ExprKindV
    decreases k,
{
    match k {
        ExprKind::Integer(t) => ExprKindV::Integer(t@),
        ExprKind::Float(t) => ExprKindV::Float(t@),
        ExprKind::Identifier(t) => ExprKindV::Identifier(t@),
        ExprKind::Binary { lhs, rhs, op } => ExprKindV::Binary {
            lhs: Box::new(expr_view(*lhs)),
            rhs: Box::new(expr_view(*rhs)),
            op: op@,
        },
        ExprKind::Block { statements } => ExprKindV::Block { statements: stmts_view(statements@) },
    }
}

pub open spec fn stmts_view(s: Seq<Stmt>) -> Seq<StmtV>
    decreases s,
{
    if s.len() == 0 {
        Seq::empty()
    } else {
        stmts_view(s.drop_last()).push(stmt_view(s.last()))
    }
}

impl Expr {
    pub fn new(kind: ExprKind, span: Span) -> (e: Self)
        ensures
            e == (Expr { kind, span, symbol_id: None }),
    {
        Self { kind, span, symbol_id: None }
    }

    pub fn new_block(span: Span, statements: Vec<Stmt>) -> (e: Self)
        ensures
            e == (Expr { kind: ExprKind::Block { statements }, span, symbol_id: None }),
    {
        Self { kind: ExprKind::Block { statements }, span, symbol_id: None }
    }

    pub fn span(&self) -> (s: &Span)
        ensures
            *s == self.span,
    {
        &self.span
    }

    pub fn kind(&self) -> (k: &ExprKind)
        ensures
            *k == self.kind,
    {
        &self.kind
    }

    pub fn kind_mut(&mut self) -> (k: &mut ExprKind)
        ensures
            *k == old(self).kind,
            *final(self) == (Expr { kind: *final(k), ..*old(self) }),
    {
        &mut self.kind
    }

    pub fn set_symbol_id(&mut self, id: usize)
        ensures
            *final(self) == (Expr { symbol_id: Some(id), ..*old(self) }),
    {
        self.symbol_id = Some(id);
    }

    pub fn symbol_id(&self) -> (id: Option<usize>)
        ensures
            id == self.symbol_id,
    {
        self.symbol_id
    }
}

/// Only a name can stand on the left of an assignment.
pub open spec fn spec_is_lvalue(k: ExprKindV) -> bool {
    k is Identifier
}

impl ExprKind {
    pub fn is_lvalue(&self) -> (b: bool)
        ensures
            b == spec_is_lvalue(self@),
    {
        matches!(self, ExprKind::Identifier(_))
    }
}

/// Expressions with no block anywhere in them.
pub open spec fn block_free(e: ExprV) -> bool {
    block_free_kind(e.kind)
}

pub open spec fn block_free_kind(k: ExprKindV) -> bool
    decreases k,
{
    match k {
        ExprKindV::Binary { lhs, rhs, .. } => block_free_kind(lhs.kind) && block_free_kind(rhs.kind),
        ExprKindV::Block { .. } => false,
        _ => true,
    }
}

/// The text of an expression in fully parenthesized form: every binary
/// expression as `(lhs op rhs)`.
pub open spec fn spec_display_expr(e: ExprV) -> Seq<char> {
    spec_display_kind(e.kind)
}

pub open spec fn spec_display_kind(k: ExprKindV) -> Seq<char>
    decreases k,
{
    match k {
        ExprKindV::Integer(t) => t.lexeme,
        ExprKindV::Float(t) => t.lexeme,
        ExprKindV::Identifier(t) => t.lexeme,
        ExprKindV::Binary { lhs, rhs, op } => "("@ + spec_display_kind(lhs.kind) + " "@ + op.lexeme
            + " "@ + spec_display_kind(rhs.kind) + ")"@,
        ExprKindV::Block { .. } => Seq::empty(),
    }
}

impl Expr {
    /// The expression in fully parenthesized form.
    pub fn to_string(&self) -> (s: String)
        requires
            block_free(self@),
        ensures
            s@ == spec_display_expr(self@),
    {
        self.kind.to_string()
    }
}

impl ExprKind {
    /// The expression in fully parenthesized form.
    pub fn to_string(&self) -> (s: String)
        requires
            block_free_kind(self@),
        ensures
            s@ == spec_display_kind(self@),
        decreases self,
    {
        let mut out = String::new();
        match self {
            ExprKind::Integer(tok) | ExprKind::Float(tok) | ExprKind::Identifier(tok) => {
                push_str(&mut out, tok.lexeme());
            },
            ExprKind::Binary { lhs, rhs, op } => {
                push_str(&mut out, "(");
                let l = lhs.kind.to_string();
                push_string(&mut out, &l);
                push_str(&mut out, " ");
                push_str(&mut out, op.lexeme());
                push_str(&mut out, " ");
                let r = rhs.kind.to_string();
                push_string(&mut out, &r);
                push_str(&mut out, ")");
            },
            ExprKind::Block { .. } => unreached(),
        }
        proof {
            assert(out@ =~= spec_display_kind(self@));
        }
        out
    }
}

/// Views of a vector of statements, element by element.
pub proof fn lemma_stmts_view(s: Seq<Stmt>)
    ensures
        stmts_view(s).len() == s.len(),
        forall|i: int| 0 <= i < s.len() ==> #[trigger] stmts_view(s)[i] == s[i]@,
    decreases s.len(),
{
    if s.len() > 0 {
        lemma_stmts_view(s.drop_last());
    }
}

impl View for Expr {
    type V = ExprV;

    open spec fn view(&self) -> ExprV {
        expr_view(*self)
    }
}

impl View for ExprKind {
    type V = ExprKindV;

    open spec fn view(&self) -> ExprKindV {
        expr_kind_view(*self)
    }
}

} // verus!
