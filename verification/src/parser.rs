use vstd::prelude::*;

use crate::ast::expr::{Expr, ExprKind, ExprKindV, ExprV};
use crate::ast::stmt::{Stmt, StmtKindV, StmtV};
use crate::diagnostic::{error::TolError, TolDiagnostic, TolDiagnosticV, TolErrorV};
use crate::lexer::tokens_view;
use crate::module::Module;
use crate::prelude::{copy_span, Span, TolResult};
use crate::token::{
    spec_assoc, spec_precedence, Associativity, Token, TokenKind, TokenV,
};
use crate::toltype::{spec_from_str, TolType};

verus! {

// ---------------------------------------------------------------------------
// The model of parsing, over the views of the tokens.
// ---------------------------------------------------------------------------

/// Tokens that a parser can walk: they end with the end-of-file token.
pub open spec fn ends_with_eof(t: Seq<TokenV>) -> bool {
    t.len() > 0 && t.last().kind == TokenKind::Eof
}

/// The result of a parse step taken by its view.
pub open spec fn res_view<T: View>(r: Result<T, TolDiagnostic>) -> Result<T::V, TolDiagnosticV> {
    match r {
        Ok(v) => Ok(v@),
        Err(d) => Err(d@),
    }
}

/// The diagnostic for finding `found` where `expected` was expected.
pub open spec fn unexpected(found: TokenV, expected: Seq<char>) -> TolDiagnosticV {
    TolDiagnosticV::Error(
        TolErrorV::UnexpectedToken { token: found.lexeme, expected, span: found.span },
    )
}

/// A leaf expression made of one token.
pub open spec fn leaf(kind: ExprKindV, tok: TokenV) -> ExprV {
    ExprV { kind, span: tok.span, symbol_id: None }
}

/// The binary expression `lhs op rhs`, spanning both operands.
pub open spec fn binary(lhs: ExprV, op: TokenV, rhs: ExprV) -> ExprV {
    ExprV {
        kind: ExprKindV::Binary { lhs: Box::new(lhs), rhs: Box::new(rhs), op },
        span: Span { start: lhs.span.start, end: rhs.span.end },
        symbol_id: None,
    }
}

/// The binding power required of the right operand of `op`.
pub open spec fn right_precedence(op: TokenKind) -> u8 {
    match spec_assoc(op) {
        Associativity::Left => spec_precedence(op),
        Associativity::Right => (spec_precedence(op) + 1) as u8,
    }
}

/// The operators that build a binary expression.
pub open spec fn is_binary_op(k: TokenKind) -> bool {
    k == TokenKind::Plus || k == TokenKind::Minus || k == TokenKind::Star || k == TokenKind::Slash
        || k == TokenKind::Equal
}

/// A placeholder outcome for positions that the parser never reaches.
pub open spec fn off_end<T>(pos: int) -> (Result<T, TolDiagnosticV>, int) {
    (Err(TolDiagnosticV::Error(TolErrorV::InvalidStartOfAnExpression { span: Span { start: 0, end: 0 } })), pos)
}

/// Parses an expression at `pos` whose operators bind tighter than `prec`;
/// gives the outcome and the position after it.
pub open spec fn spec_parse_expr(t: Seq<TokenV>, pos: int, prec: u8) -> (
    Result<ExprV, TolDiagnosticV>,
    int,
)
    decreases t.len() - pos, 2int,
{
    if pos < 0 || pos >= t.len() {
        off_end(pos)
    } else {
        match spec_nud(t, pos) {
            (Err(d), p) => (Err(d), p),
            (Ok(e), p) => if pos < p <= t.len() {
                spec_parse_loop(t, p, prec, e)
            } else {
                off_end(p)
            },
        }
    }
}

/// Extends `left` with infix operators for as long as they bind tighter than `prec`.
pub open spec fn spec_parse_loop(t: Seq<TokenV>, pos: int, prec: u8, left: ExprV) -> (
    Result<ExprV, TolDiagnosticV>,
    int,
)
    decreases t.len() - pos, 0int,
{
    if pos < 0 || pos >= t.len() {
        off_end(pos)
    } else if t[pos].kind == TokenKind::Eof || spec_precedence(t[pos].kind) <= prec {
        (Ok(left), pos)
    } else {
        match spec_led(t, pos + 1, t[pos], left) {
            (Err(d), p) => (Err(d), p),
            (Ok(e), p) => if pos < p <= t.len() {
                spec_parse_loop(t, p, prec, e)
            } else {
                off_end(p)
            },
        }
    }
}

/// Parses the right operand of `op` at `pos` and joins it to `left`.
pub open spec fn spec_led(t: Seq<TokenV>, pos: int, op: TokenV, left: ExprV) -> (
    Result<ExprV, TolDiagnosticV>,
    int,
)
    decreases t.len() - pos, 3int,
{
    if pos < 0 || pos >= t.len() || !is_binary_op(op.kind) {
        off_end(pos)
    } else {
        match spec_parse_expr(t, pos, right_precedence(op.kind)) {
            (Err(d), p) => (Err(d), p),
            (Ok(right), p) => (Ok(binary(left, op, right)), p),
        }
    }
}

/// Parses the expression that starts at `pos`: a literal, a name or a
/// parenthesized expression.
pub open spec fn spec_nud(t: Seq<TokenV>, pos: int) -> (Result<ExprV, TolDiagnosticV>, int)
    decreases t.len() - pos, 1int,
{
    if pos < 0 || pos >= t.len() {
        off_end(pos)
    } else {
        let tok = t[pos];
        match tok.kind {
            TokenKind::IntLiteral => (Ok(leaf(ExprKindV::Integer(tok), tok)), pos + 1),
            TokenKind::FloatLiteral => (Ok(leaf(ExprKindV::Float(tok), tok)), pos + 1),
            TokenKind::Identifier => (Ok(leaf(ExprKindV::Identifier(tok), tok)), pos + 1),
            TokenKind::LParen => match spec_parse_expr(t, pos + 1, 0) {
                (Err(d), p) => (Err(d), p),
                (Ok(e), p) => if 0 <= p < t.len() {
                    if t[p].kind == TokenKind::RParen {
                        (Ok(e), p + 1)
                    } else {
                        (Err(unexpected(t[p], seq![')'])), p)
                    }
                } else {
                    off_end(p)
                },
            },
            _ => (
                Err(
                    TolDiagnosticV::Error(
                        TolErrorV::InvalidStartOfAnExpression { span: tok.span },
                    ),
                ),
                pos + 1,
            ),
        }
    }
}

/// Parses a type annotation at `pos`.
pub open spec fn spec_parse_type(t: Seq<TokenV>, pos: int) -> (Result<TolType, TolDiagnosticV>, int) {
    if pos < 0 || pos >= t.len() {
        off_end(pos)
    } else if t[pos].kind != TokenKind::Identifier {
        (Err(unexpected(t[pos], seq!['t', 'i', 'p', 'o'])), pos)
    } else {
        (spec_from_str(t[pos].lexeme, t[pos].span), pos + 1)
    }
}

/// Parses the rest of a statement whose expression `e` ends before `pos`:
/// the `;` that closes it.
pub open spec fn spec_finish_expression_statement(t: Seq<TokenV>, pos: int, e: ExprV) -> (
    Result<StmtV, TolDiagnosticV>,
    int,
) {
    if pos < 0 || pos >= t.len() {
        off_end(pos)
    } else if t[pos].kind == TokenKind::Semicolon {
        (
            Ok(
                StmtV {
                    kind: StmtKindV::Expression { expr: e },
                    span: Span { start: e.span.start, end: t[pos].span.end },
                    symbol_id: None,
                },
            ),
            pos + 1,
        )
    } else {
        (Err(unexpected(t[pos], seq![';'])), pos)
    }
}

/// Parses the rest of a name declaration `name: ty = rhs;` from the `=`
/// at `pos` on.
pub open spec fn spec_finish_name_declaration(
    t: Seq<TokenV>,
    pos: int,
    name: TokenV,
    ty: Option<TolType>,
) -> (Result<StmtV, TolDiagnosticV>, int) {
    if pos < 0 || pos >= t.len() {
        off_end(pos)
    } else if t[pos].kind != TokenKind::Equal {
        (Err(unexpected(t[pos], seq!['='])), pos)
    } else {
        match spec_parse_expr(t, pos + 1, 0) {
            (Err(d), p) => (Err(d), p),
            (Ok(rhs), p) => if 0 <= p < t.len() {
                if t[p].kind == TokenKind::Semicolon {
                    (
                        Ok(
                            StmtV {
                                kind: StmtKindV::NameDeclaration {
                                    is_mutable: false,
                                    name,
                                    ty,
                                    rhs,
                                },
                                span: Span { start: name.span.start, end: t[p].span.end },
                                symbol_id: None,
                            },
                        ),
                        p + 1,
                    )
                } else {
                    (Err(unexpected(t[p], seq![';'])), p)
                }
            } else {
                off_end(p)
            },
        }
    }
}

/// Parses a name declaration whose name is at `pos` (and its `:` after it).
pub open spec fn spec_parse_name_declaration(t: Seq<TokenV>, pos: int) -> (
    Result<StmtV, TolDiagnosticV>,
    int,
) {
    if pos < 0 || pos + 2 >= t.len() {
        off_end(pos)
    } else if t[pos + 2].kind == TokenKind::Equal {
        spec_finish_name_declaration(t, pos + 2, t[pos], None)
    } else {
        match spec_parse_type(t, pos + 2) {
            (Err(d), p) => (Err(d), p),
            (Ok(ty), p) => spec_finish_name_declaration(t, p, t[pos], Some(ty)),
        }
    }
}

/// Whether the statement at `pos` is a name declaration: a name and a `:`.
pub open spec fn starts_name_declaration(t: Seq<TokenV>, pos: int) -> bool {
    t[pos].kind == TokenKind::Identifier && t[pos + 1].kind == TokenKind::Colon
}

/// Parses the statement that starts at `pos`.
pub open spec fn spec_parse_statement(t: Seq<TokenV>, pos: int) -> (
    Result<StmtV, TolDiagnosticV>,
    int,
) {
    if pos < 0 || pos + 1 >= t.len() {
        off_end(pos)
    } else if starts_name_declaration(t, pos) {
        spec_parse_name_declaration(t, pos)
    } else {
        match spec_parse_expr(t, pos, 0) {
            (Err(d), p) => (Err(d), p),
            (Ok(e), p) => spec_finish_expression_statement(t, p, e),
        }
    }
}

/// Parses statements from `pos` until the end-of-file token, adding the
/// statements to `stmts` and the diagnostics to `diags`; gives them with the
/// position of that end-of-file token. `None` where the parser would read
/// past the last token.
pub open spec fn spec_parse_program(
    t: Seq<TokenV>,
    pos: int,
    stmts: Seq<StmtV>,
    diags: Seq<TolDiagnosticV>,
) -> Option<(Seq<StmtV>, Seq<TolDiagnosticV>, int)>
    decreases t.len() - pos,
{
    if pos < 0 || pos >= t.len() {
        None
    } else if t[pos].kind == TokenKind::Eof {
        Some((stmts, diags, pos))
    } else {
        match spec_parse_statement(t, pos) {
            (Ok(s), p) => if pos < p <= t.len() {
                spec_parse_program(t, p, stmts.push(s), diags)
            } else {
                None
            },
            (Err(d), p) => if pos < p <= t.len() {
                spec_parse_program(t, p, stmts, diags.push(d))
            } else {
                None
            },
        }
    }
}

/// Diagnostics only ever get added while parsing a program.
pub proof fn lemma_parse_program_diags_grow(
    t: Seq<TokenV>,
    pos: int,
    stmts: Seq<StmtV>,
    diags: Seq<TolDiagnosticV>,
)
    requires
        spec_parse_program(t, pos, stmts, diags) is Some,
    ensures
        diags.len() <= spec_parse_program(t, pos, stmts, diags).unwrap().1.len(),
    decreases t.len() - pos,
{
    if 0 <= pos < t.len() && t[pos].kind != TokenKind::Eof {
        match spec_parse_statement(t, pos) {
            (Ok(s), p) => {
                lemma_parse_program_diags_grow(t, p, stmts.push(s), diags);
            },
            (Err(d), p) => {
                lemma_parse_program_diags_grow(t, p, stmts, diags.push(d));
            },
        }
    }
}

// ---------------------------------------------------------------------------
// The parser.
// ---------------------------------------------------------------------------

/// A Pratt parser that adds the statements it parses, and the diagnostics it
/// meets, to a module.
pub struct Parser<'m> {
    pub tokens: Vec<Token>,
    pub current: usize,
    pub modul: &'m mut Module,
}

impl<'m> Parser<'m> {
    /// The views of the parser's tokens.
    pub open spec fn toks(&self) -> Seq<TokenV> {
        tokens_view(self.tokens@)
    }

    pub fn new(tokens: Vec<Token>, modul: &'m mut Module) -> (p: Self)
        ensures
            p.tokens == tokens,
            p.current == 0,
            *p.modul == *old(modul),
            *final(p.modul) == *final(modul),
    {
        Self { tokens, current: 0, modul }
    }

    /// Parses the statements up to the end-of-file token into the module.
    pub fn run(&mut self)
        requires
            ends_with_eof(old(self).toks()),
            ({
                let start = match old(self).modul@.diagnostics {
                    Some(d) => d,
                    None => Seq::empty(),
                };
                &&& spec_parse_program(old(self).toks(), old(self).current as int, old(self).modul@.ast, start) is Some
                &&& (old(self).modul@.diagnostics is None ==> spec_parse_program(
                    old(self).toks(),
                    old(self).current as int,
                    old(self).modul@.ast,
                    start,
                ).unwrap().1.len() == 0)
            }),
        ensures
            final(self).tokens == old(self).tokens,
            *final(final(self).modul) == *final(old(self).modul),
            ({
                let start = match old(self).modul@.diagnostics {
                    Some(d) => d,
                    None => Seq::empty(),
                };
                let (stmts, diags, end) = spec_parse_program(
                    old(self).toks(),
                    old(self).current as int,
                    old(self).modul@.ast,
                    start,
                ).unwrap();
                &&& final(self).current == end
                &&& final(self).modul@.ast == stmts
                &&& final(self).modul@.diagnostics == if old(self).modul@.diagnostics is Some {
                    Some(diags)
                } else {
                    None
                }
                &&& final(self).modul@.source == old(self).modul@.source
                &&& final(self).modul@.symbols == old(self).modul@.symbols
            }),
    {
        let ghost t = self.toks();
        let ghost start = match self.modul@.diagnostics {
            Some(d) => d,
            None => Seq::empty(),
        };
        let ghost result = spec_parse_program(t, self.current as int, self.modul@.ast, start);
        let ghost had_diags = self.modul@.diagnostics is Some;
        proof {
            lemma_parse_program_diags_grow(t, self.current as int, self.modul@.ast, start);
        }
        loop
            invariant
                self.toks() == t,
                ends_with_eof(t),
                self.tokens == old(self).tokens,
                *final(self.modul) == *final(old(self).modul),
                self.modul@.source == old(self).modul@.source,
                self.modul@.symbols == old(self).modul@.symbols,
                (self.modul@.diagnostics is Some) == had_diags,
                result is Some,
                !had_diags ==> result.unwrap().1.len() == 0,
                spec_parse_program(
                    t,
                    self.current as int,
                    self.modul@.ast,
                    match self.modul@.diagnostics {
                        Some(d) => d,
                        None => Seq::empty(),
                    },
                ) == result,
            ensures
                self.modul@.ast == result.unwrap().0,
                self.current == result.unwrap().2,
                had_diags ==> self.modul@.diagnostics == Some(result.unwrap().1),
                !had_diags ==> self.modul@.diagnostics is None,
            decreases t.len() - self.current,
        {
            let ghost diags_now = match self.modul@.diagnostics {
                Some(d) => d,
                None => Seq::empty(),
            };
            if self.is_at_end() {
                break ;
            }
            match self.parse_statement() {
                Ok(statement) => {
                    self.modul.add_statement(statement);
                },
                Err(diag) => {
                    proof {
                        if !had_diags {
                            lemma_parse_program_diags_grow(
                                t,
                                self.current as int,
                                self.modul@.ast,
                                diags_now.push(diag@),
                            );
                        }
                    }
                    self.modul.add_diagnostic(diag);
                },
            }
        }
    }

    fn parse_statement(&mut self) -> (res: TolResult<Stmt>)
        requires
            ends_with_eof(old(self).toks()),
            old(self).current < old(self).toks().len(),
            old(self).toks()[old(self).current as int].kind != TokenKind::Eof,
        ensures
            final(self).tokens == old(self).tokens,
            *final(self).modul == *old(self).modul,
            *final(final(self).modul) == *final(old(self).modul),
            (res_view(res), final(self).current as int) == spec_parse_statement(
                old(self).toks(),
                old(self).current as int,
            ),
            old(self).current < final(self).current <= old(self).toks().len(),
    {
        proof {
            reveal_strlit(";");
            assert(";"@ =~= seq![';']);
        }
        if *self.peek().kind() == TokenKind::Identifier && *self.peek_next().kind()
            == TokenKind::Colon {
            self.parse_name_declaration()
        } else {
            let expr = self.parse_expression(0)?;
            let end = self.consume(TokenKind::Semicolon, ";")?.span().end;
            let span = expr.span().start..end;
            Ok(Stmt::new_expression(span, expr))
        }
    }

    fn parse_name_declaration(&mut self) -> (res: TolResult<Stmt>)
        requires
            ends_with_eof(old(self).toks()),
            old(self).current + 1 < old(self).toks().len(),
            starts_name_declaration(old(self).toks(), old(self).current as int),
        ensures
            final(self).tokens == old(self).tokens,
            *final(self).modul == *old(self).modul,
            *final(final(self).modul) == *final(old(self).modul),
            (res_view(res), final(self).current as int) == spec_parse_name_declaration(
                old(self).toks(),
                old(self).current as int,
            ),
            old(self).current < final(self).current <= old(self).toks().len(),
    {
        proof {
            reveal_strlit("=");
            assert("="@ =~= seq!['=']);
            reveal_strlit(";");
            assert(";"@ =~= seq![';']);
        }
        let name = self.advance().clone();
        let start = name.span().start;
        self.advance();
        let ty = if *self.peek().kind() == TokenKind::Equal {
            None
        } else {
            Some(self.parse_type()?)
        };
        self.consume(TokenKind::Equal, "=")?;
        let rhs = self.parse_expression(0)?;
        let end = self.consume(TokenKind::Semicolon, ";")?.span().end;
        Ok(Stmt::new_name_declaration(start..end, false, name, ty, rhs))
    }

    fn parse_type(&mut self) -> (res: TolResult<TolType>)
        requires
            ends_with_eof(old(self).toks()),
            old(self).current < old(self).toks().len(),
        ensures
            final(self).tokens == old(self).tokens,
            *final(self).modul == *old(self).modul,
            *final(final(self).modul) == *final(old(self).modul),
            (crate::diagnostic::err_view(res), final(self).current as int) == spec_parse_type(
                old(self).toks(),
                old(self).current as int,
            ),
    {
        let ty = if *self.peek().kind() != TokenKind::Identifier {
            proof {
                reveal_strlit("tipo");
                assert("tipo"@ =~= seq!['t', 'i', 'p', 'o']);
            }
            return Err(TolDiagnostic::new_error(TolError::UnexpectedToken {
                token: self.peek().lexeme().to_owned(),
                expected: "tipo".to_owned(),
                span: copy_span(self.peek().span()),
            }));
        } else {
            self.advance()
        };
        TolType::from_str(ty.lexeme(), copy_span(ty.span()))
    }

    /// Parses an expression whose operators bind tighter than `precedence`.
    pub fn parse_expression(&mut self, precedence: u8) -> (res: TolResult<Expr>)
        requires
            ends_with_eof(old(self).toks()),
            old(self).current < old(self).toks().len(),
        ensures
            final(self).tokens == old(self).tokens,
            *final(self).modul == *old(self).modul,
            *final(final(self).modul) == *final(old(self).modul),
            (res_view(res), final(self).current as int) == spec_parse_expr(
                old(self).toks(),
                old(self).current as int,
                precedence,
            ),
            old(self).current < final(self).current <= old(self).toks().len(),
            res is Ok ==> final(self).current < old(self).toks().len(),
        decreases old(self).toks().len() - old(self).current, 2int,
    {
        let ghost t = self.toks();
        let mut left = self.nud()?;
        while !self.is_at_end() && self.peek().kind().precedence() > precedence
            invariant
                self.toks() == t,
                ends_with_eof(t),
                self.tokens == old(self).tokens,
                *self.modul == *old(self).modul,
                *final(self.modul) == *final(old(self).modul),
                old(self).current < self.current < t.len(),
                spec_parse_expr(t, old(self).current as int, precedence) == spec_parse_loop(
                    t,
                    self.current as int,
                    precedence,
                    left@,
                ),
            decreases t.len() - self.current,
        {
            let op = self.advance().clone();
            left = self.led(op, left)?;
        }
        Ok(left)
    }

    fn nud(&mut self) -> (res: TolResult<Expr>)
        requires
            ends_with_eof(old(self).toks()),
            old(self).current < old(self).toks().len(),
        ensures
            final(self).tokens == old(self).tokens,
            *final(self).modul == *old(self).modul,
            *final(final(self).modul) == *final(old(self).modul),
            (res_view(res), final(self).current as int) == spec_nud(
                old(self).toks(),
                old(self).current as int,
            ),
            old(self).current < final(self).current <= old(self).toks().len(),
            res is Ok ==> final(self).current < old(self).toks().len(),
        decreases old(self).toks().len() - old(self).current, 1int,
    {
        proof {
            reveal_strlit(")");
            assert(")"@ =~= seq![')']);
        }
        let kind = *self.peek().kind();
        match kind {
            TokenKind::IntLiteral => {
                let token = self.advance();
                let span = copy_span(token.span());
                Ok(Expr::new(ExprKind::Integer(token.clone()), span))
            },
            TokenKind::FloatLiteral => {
                let token = self.advance();
                let span = copy_span(token.span());
                Ok(Expr::new(ExprKind::Float(token.clone()), span))
            },
            TokenKind::Identifier => {
                let token = self.advance();
                let span = copy_span(token.span());
                Ok(Expr::new(ExprKind::Identifier(token.clone()), span))
            },
            TokenKind::LParen => {
                self.advance();
                let expr = self.parse_expression(0)?;
                self.consume(TokenKind::RParen, ")")?;
                Ok(expr)
            },
            _ => Err(
                TolDiagnostic::new_error(
                    TolError::InvalidStartOfAnExpression { span: copy_span(self.advance().span()) },
                ),
            ),
        }
    }

    fn led(&mut self, op: Token, left: Expr) -> (res: TolResult<Expr>)
        requires
            ends_with_eof(old(self).toks()),
            old(self).current < old(self).toks().len(),
            is_binary_op(op@.kind),
        ensures
            final(self).tokens == old(self).tokens,
            *final(self).modul == *old(self).modul,
            *final(final(self).modul) == *final(old(self).modul),
            (res_view(res), final(self).current as int) == spec_led(
                old(self).toks(),
                old(self).current as int,
                op@,
                left@,
            ),
            old(self).current < final(self).current <= old(self).toks().len(),
            res is Ok ==> final(self).current < old(self).toks().len(),
        decreases old(self).toks().len() - old(self).current, 3int,
    {
        let precedence = match op.kind().assoc() {
            Associativity::Left => op.kind().precedence(),
            Associativity::Right => op.kind().precedence() + 1,
        };
        let right = self.parse_expression(precedence)?;
        let span = left.span().start..right.span().end;
        Ok(Expr::new(ExprKind::Binary { lhs: Box::new(left), rhs: Box::new(right), op }, span))
    }

    fn peek(&self) -> (t: &Token)
        requires
            self.current < self.toks().len(),
        ensures
            t@ == self.toks()[self.current as int],
    {
        &self.tokens[self.current]
    }

    fn peek_next(&self) -> (t: &Token)
        requires
            self.current + 1 < self.toks().len(),
        ensures
            t@ == self.toks()[self.current + 1],
    {
        let n = self.tokens.len();
        proof {
            assert(self.toks().len() == n);
        }
        &self.tokens[self.current + 1]
    }

    fn advance(&mut self) -> (t: &Token)
        requires
            old(self).current < old(self).toks().len(),
        ensures
            t@ == old(self).toks()[old(self).current as int],
            final(self).current == old(self).current + 1,
            final(self).tokens == old(self).tokens,
            *final(self).modul == *old(self).modul,
            *final(final(self).modul) == *final(old(self).modul),
    {
        let n = self.tokens.len();
        proof {
            assert(self.toks().len() == n);
        }
        self.current = self.current + 1;
        &self.tokens[self.current - 1]
    }

    fn consume(&mut self, expected_kind: TokenKind, expected_lexeme: &str) -> (res: TolResult<
        &Token,
    >)
        requires
            old(self).current < old(self).toks().len(),
        ensures
            final(self).tokens == old(self).tokens,
            *final(self).modul == *old(self).modul,
            *final(final(self).modul) == *final(old(self).modul),
            old(self).toks()[old(self).current as int].kind == expected_kind ==> {
                &&& res matches Ok(tok) && tok@ == old(self).toks()[old(self).current as int]
                &&& final(self).current == old(self).current + 1
            },
            old(self).toks()[old(self).current as int].kind != expected_kind ==> {
                &&& res matches Err(d) && d@ == unexpected(
                    old(self).toks()[old(self).current as int],
                    expected_lexeme@,
                )
                &&& final(self).current == old(self).current
            },
    {
        if *self.peek().kind() == expected_kind {
            return Ok(self.advance());
        }
        Err(TolDiagnostic::new_error(TolError::UnexpectedToken {
            token: self.peek().lexeme().to_owned(),
            expected: expected_lexeme.to_owned(),
            span: copy_span(self.peek().span()),
        }))
    }

    pub fn is_at_end(&self) -> (b: bool)
        requires
            self.current < self.toks().len(),
        ensures
            b == (self.toks()[self.current as int].kind == TokenKind::Eof),
    {
        *self.tokens[self.current].kind() == TokenKind::Eof
    }
}

} // verus!

verus! {

// ---------------------------------------------------------------------------
// Laws of the parser.
// ---------------------------------------------------------------------------

/// Tokens that make a whole expression on their own.
pub open spec fn is_operand(k: TokenKind) -> bool {
    k == TokenKind::IntLiteral || k == TokenKind::FloatLiteral || k == TokenKind::Identifier
}

/// The arithmetic operators.
pub open spec fn is_arith_op(k: TokenKind) -> bool {
    k == TokenKind::Plus || k == TokenKind::Minus || k == TokenKind::Star || k == TokenKind::Slash
}

/// The expression made of one operand token.
pub open spec fn operand(tok: TokenV) -> ExprV {
    if tok.kind == TokenKind::IntLiteral {
        leaf(ExprKindV::Integer(tok), tok)
    } else if tok.kind == TokenKind::FloatLiteral {
        leaf(ExprKindV::Float(tok), tok)
    } else {
        leaf(ExprKindV::Identifier(tok), tok)
    }
}

proof fn lemma_nud_operand(t: Seq<TokenV>, pos: int)
    requires
        0 <= pos < t.len(),
        is_operand(t[pos].kind),
    ensures
        spec_nud(t, pos) == (Ok::<ExprV, TolDiagnosticV>(operand(t[pos])), pos + 1),
{
}

/// An operand followed by an operator that binds no tighter than `prec` (or
/// by the end of file) parses as that operand alone.
proof fn lemma_operand_alone(t: Seq<TokenV>, pos: int, prec: u8)
    requires
        0 <= pos,
        pos + 1 < t.len(),
        is_operand(t[pos].kind),
        t[pos + 1].kind == TokenKind::Eof || spec_precedence(t[pos + 1].kind) <= prec,
    ensures
        spec_parse_expr(t, pos, prec) == (Ok::<ExprV, TolDiagnosticV>(operand(t[pos])), pos + 1),
{
    lemma_nud_operand(t, pos);
    assert(spec_parse_loop(t, pos + 1, prec, operand(t[pos])) == (
        Ok::<ExprV, TolDiagnosticV>(operand(t[pos])),
        pos + 1,
    ));
}

/// Operators of higher precedence bind tighter: `a o1 b o2 c` with `o2`
/// binding tighter than `o1` parses as `a o1 (b o2 c)`.
pub proof fn lemma_precedence(t: Seq<TokenV>)
    requires
        t.len() == 6,
        is_operand(t[0].kind),
        is_operand(t[2].kind),
        is_operand(t[4].kind),
        is_arith_op(t[1].kind),
        is_arith_op(t[3].kind),
        spec_precedence(t[3].kind) > spec_precedence(t[1].kind),
        t[5].kind == TokenKind::Eof,
    ensures
        spec_parse_expr(t, 0, 0) == (
            Ok::<ExprV, TolDiagnosticV>(
                binary(operand(t[0]), t[1], binary(operand(t[2]), t[3], operand(t[4]))),
            ),
            5int,
        ),
{
    let a = operand(t[0]);
    let b = operand(t[2]);
    let c = operand(t[4]);
    let p1 = right_precedence(t[1].kind);
    let p3 = right_precedence(t[3].kind);
    lemma_operand_alone(t, 4, p3);
    let bc = binary(b, t[3], c);
    assert(spec_led(t, 4, t[3], b) == (Ok::<ExprV, TolDiagnosticV>(bc), 5int));
    assert(spec_parse_loop(t, 5, p1, bc) == (Ok::<ExprV, TolDiagnosticV>(bc), 5int));
    assert(spec_parse_loop(t, 3, p1, b) == (Ok::<ExprV, TolDiagnosticV>(bc), 5int));
    lemma_nud_operand(t, 2);
    assert(spec_parse_expr(t, 2, p1) == (Ok::<ExprV, TolDiagnosticV>(bc), 5int));
    let abc = binary(a, t[1], bc);
    assert(spec_led(t, 2, t[1], a) == (Ok::<ExprV, TolDiagnosticV>(abc), 5int));
    assert(spec_parse_loop(t, 5, 0, abc) == (Ok::<ExprV, TolDiagnosticV>(abc), 5int));
    assert(spec_parse_loop(t, 1, 0, a) == (Ok::<ExprV, TolDiagnosticV>(abc), 5int));
    lemma_nud_operand(t, 0);
}

/// Operators of equal precedence group to the left: `a o1 b o2 c` with `o1`
/// and `o2` both additive or both multiplicative parses as `(a o1 b) o2 c`.
pub proof fn lemma_left_associative(t: Seq<TokenV>)
    requires
        t.len() == 6,
        is_operand(t[0].kind),
        is_operand(t[2].kind),
        is_operand(t[4].kind),
        is_arith_op(t[1].kind),
        is_arith_op(t[3].kind),
        spec_precedence(t[3].kind) == spec_precedence(t[1].kind),
        t[5].kind == TokenKind::Eof,
    ensures
        spec_parse_expr(t, 0, 0) == (
            Ok::<ExprV, TolDiagnosticV>(
                binary(binary(operand(t[0]), t[1], operand(t[2])), t[3], operand(t[4])),
            ),
            5int,
        ),
{
    let a = operand(t[0]);
    let b = operand(t[2]);
    let c = operand(t[4]);
    let p1 = right_precedence(t[1].kind);
    let p3 = right_precedence(t[3].kind);
    lemma_operand_alone(t, 2, p1);
    let ab = binary(a, t[1], b);
    assert(spec_led(t, 2, t[1], a) == (Ok::<ExprV, TolDiagnosticV>(ab), 3int));
    lemma_operand_alone(t, 4, p3);
    let abc = binary(ab, t[3], c);
    assert(spec_led(t, 4, t[3], ab) == (Ok::<ExprV, TolDiagnosticV>(abc), 5int));
    assert(spec_parse_loop(t, 5, 0, abc) == (Ok::<ExprV, TolDiagnosticV>(abc), 5int));
    assert(spec_parse_loop(t, 3, 0, ab) == (Ok::<ExprV, TolDiagnosticV>(abc), 5int));
    assert(spec_parse_loop(t, 1, 0, a) == (Ok::<ExprV, TolDiagnosticV>(abc), 5int));
    lemma_nud_operand(t, 0);
}

/// Parentheses group without leaving a trace: `( a o b )` parses as the
/// binary expression `a o b`, spanning from `a` to `b`.
pub proof fn lemma_parenthesized(t: Seq<TokenV>)
    requires
        t.len() == 6,
        t[0].kind == TokenKind::LParen,
        is_operand(t[1].kind),
        is_arith_op(t[2].kind),
        is_operand(t[3].kind),
        t[4].kind == TokenKind::RParen,
        t[5].kind == TokenKind::Eof,
    ensures
        spec_parse_expr(t, 0, 0) == (
            Ok::<ExprV, TolDiagnosticV>(binary(operand(t[1]), t[2], operand(t[3]))),
            5int,
        ),
        binary(operand(t[1]), t[2], operand(t[3])).span == (Span {
            start: t[1].span.start,
            end: t[3].span.end,
        }),
{
    let a = operand(t[1]);
    let b = operand(t[3]);
    let p = right_precedence(t[2].kind);
    lemma_operand_alone(t, 3, p);
    let ab = binary(a, t[2], b);
    assert(spec_led(t, 3, t[2], a) == (Ok::<ExprV, TolDiagnosticV>(ab), 4int));
    assert(spec_parse_loop(t, 4, 0, ab) == (Ok::<ExprV, TolDiagnosticV>(ab), 4int));
    assert(spec_parse_loop(t, 2, 0, a) == (Ok::<ExprV, TolDiagnosticV>(ab), 4int));
    lemma_nud_operand(t, 1);
    assert(spec_parse_expr(t, 1, 0) == (Ok::<ExprV, TolDiagnosticV>(ab), 4int));
    assert(spec_nud(t, 0) == (Ok::<ExprV, TolDiagnosticV>(ab), 5int));
    assert(spec_parse_loop(t, 5, 0, ab) == (Ok::<ExprV, TolDiagnosticV>(ab), 5int));
}

} // verus!

verus! {

/// Parsing an expression always moves forward, and a parsed expression stops
/// before the end of the tokens; so the guards on positions in the model
/// never cut a parse short.
pub proof fn lemma_parse_expr_advances(t: Seq<TokenV>, pos: int, prec: u8)
    requires
        ends_with_eof(t),
        0 <= pos < t.len(),
    ensures
        pos < spec_parse_expr(t, pos, prec).1 <= t.len(),
        spec_parse_expr(t, pos, prec).0 is Ok ==> spec_parse_expr(t, pos, prec).1 < t.len(),
    decreases t.len() - pos, 2int,
{
    lemma_nud_advances(t, pos);
    let (r, p) = spec_nud(t, pos);
    if r is Ok {
        lemma_parse_loop_advances(t, p, prec, r->Ok_0);
    }
}

proof fn lemma_parse_loop_advances(t: Seq<TokenV>, pos: int, prec: u8, left: ExprV)
    requires
        ends_with_eof(t),
        0 <= pos < t.len(),
    ensures
        pos <= spec_parse_loop(t, pos, prec, left).1 <= t.len(),
        spec_parse_loop(t, pos, prec, left).0 is Ok ==> spec_parse_loop(t, pos, prec, left).1
            < t.len(),
    decreases t.len() - pos, 0int,
{
    if t[pos].kind != TokenKind::Eof && spec_precedence(t[pos].kind) > prec {
        lemma_led_advances(t, pos + 1, t[pos], left);
        let (r, p) = spec_led(t, pos + 1, t[pos], left);
        if r is Ok {
            lemma_parse_loop_advances(t, p, prec, r->Ok_0);
        }
    }
}

proof fn lemma_led_advances(t: Seq<TokenV>, pos: int, op: TokenV, left: ExprV)
    requires
        ends_with_eof(t),
        0 <= pos < t.len(),
        is_binary_op(op.kind),
    ensures
        pos < spec_led(t, pos, op, left).1 <= t.len(),
        spec_led(t, pos, op, left).0 is Ok ==> spec_led(t, pos, op, left).1 < t.len(),
    decreases t.len() - pos, 3int,
{
    lemma_parse_expr_advances(t, pos, right_precedence(op.kind));
}

proof fn lemma_nud_advances(t: Seq<TokenV>, pos: int)
    requires
        ends_with_eof(t),
        0 <= pos < t.len(),
    ensures
        pos < spec_nud(t, pos).1 <= t.len(),
        spec_nud(t, pos).0 is Ok ==> spec_nud(t, pos).1 < t.len(),
    decreases t.len() - pos, 1int,
{
    if t[pos].kind == TokenKind::LParen {
        lemma_parse_expr_advances(t, pos + 1, 0);
    }
}

} // verus!

verus! {

/// Multiplication and division bind tighter than addition and subtraction:
/// `a + b * c`, `a - b / c` and the like parse as `a o1 (b o2 c)`.
pub proof fn lemma_multiplicative_binds_tighter(t: Seq<TokenV>)
    requires
        t.len() == 6,
        is_operand(t[0].kind),
        is_operand(t[2].kind),
        is_operand(t[4].kind),
        t[1].kind == TokenKind::Plus || t[1].kind == TokenKind::Minus,
        t[3].kind == TokenKind::Star || t[3].kind == TokenKind::Slash,
        t[5].kind == TokenKind::Eof,
    ensures
        spec_parse_expr(t, 0, 0) == (
            Ok::<ExprV, TolDiagnosticV>(
                binary(operand(t[0]), t[1], binary(operand(t[2]), t[3], operand(t[4]))),
            ),
            5int,
        ),
{
    lemma_precedence(t);
}

/// A multiplicative operator before an additive one groups first:
/// `a * b + c`, `a / b - c` and the like parse as `(a o1 b) o2 c`.
pub proof fn lemma_multiplicative_groups_first(t: Seq<TokenV>)
    requires
        t.len() == 6,
        is_operand(t[0].kind),
        is_operand(t[2].kind),
        is_operand(t[4].kind),
        t[1].kind == TokenKind::Star || t[1].kind == TokenKind::Slash,
        t[3].kind == TokenKind::Plus || t[3].kind == TokenKind::Minus,
        t[5].kind == TokenKind::Eof,
    ensures
        spec_parse_expr(t, 0, 0) == (
            Ok::<ExprV, TolDiagnosticV>(
                binary(binary(operand(t[0]), t[1], operand(t[2])), t[3], operand(t[4])),
            ),
            5int,
        ),
{
    let a = operand(t[0]);
    let b = operand(t[2]);
    let c = operand(t[4]);
    let p1 = right_precedence(t[1].kind);
    let p3 = right_precedence(t[3].kind);
    lemma_operand_alone(t, 2, p1);
    let ab = binary(a, t[1], b);
    assert(spec_led(t, 2, t[1], a) == (Ok::<ExprV, TolDiagnosticV>(ab), 3int));
    lemma_operand_alone(t, 4, p3);
    let abc = binary(ab, t[3], c);
    assert(spec_led(t, 4, t[3], ab) == (Ok::<ExprV, TolDiagnosticV>(abc), 5int));
    assert(spec_parse_loop(t, 5, 0, abc) == (Ok::<ExprV, TolDiagnosticV>(abc), 5int));
    assert(spec_parse_loop(t, 3, 0, ab) == (Ok::<ExprV, TolDiagnosticV>(abc), 5int));
    assert(spec_parse_loop(t, 1, 0, a) == (Ok::<ExprV, TolDiagnosticV>(abc), 5int));
    lemma_nud_operand(t, 0);
}

/// Addition and subtraction bind equally and group to the left:
/// `a - b + c`, `a + b - c` and the like parse as `(a o1 b) o2 c`.
pub proof fn lemma_additive_left_associative(t: Seq<TokenV>)
    requires
        t.len() == 6,
        is_operand(t[0].kind),
        is_operand(t[2].kind),
        is_operand(t[4].kind),
        t[1].kind == TokenKind::Plus || t[1].kind == TokenKind::Minus,
        t[3].kind == TokenKind::Plus || t[3].kind == TokenKind::Minus,
        t[5].kind == TokenKind::Eof,
    ensures
        spec_parse_expr(t, 0, 0) == (
            Ok::<ExprV, TolDiagnosticV>(
                binary(binary(operand(t[0]), t[1], operand(t[2])), t[3], operand(t[4])),
            ),
            5int,
        ),
{
    lemma_left_associative(t);
}

/// Multiplication and division bind equally and group to the left:
/// `a / b * c` and the like parse as `(a o1 b) o2 c`.
pub proof fn lemma_multiplicative_left_associative(t: Seq<TokenV>)
    requires
        t.len() == 6,
        is_operand(t[0].kind),
        is_operand(t[2].kind),
        is_operand(t[4].kind),
        t[1].kind == TokenKind::Star || t[1].kind == TokenKind::Slash,
        t[3].kind == TokenKind::Star || t[3].kind == TokenKind::Slash,
        t[5].kind == TokenKind::Eof,
    ensures
        spec_parse_expr(t, 0, 0) == (
            Ok::<ExprV, TolDiagnosticV>(
                binary(binary(operand(t[0]), t[1], operand(t[2])), t[3], operand(t[4])),
            ),
            5int,
        ),
{
    lemma_left_associative(t);
}

} // verus!
