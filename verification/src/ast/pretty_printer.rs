use vstd::prelude::*;

use crate::ast::expr::{block_free, lemma_stmts_view, stmts_view, Expr, ExprKind, ExprKindV, ExprV};
use crate::ast::stmt::{Stmt, StmtKind, StmtKindV, StmtV};
use crate::text::{push_spaces, push_str, push_string, spaces};
use crate::toltype::TolType;

verus! {

// ---------------------------------------------------------------------------
// What the printer writes.
// ---------------------------------------------------------------------------

/// Statements the printer knows how to print: name declarations and
/// expression statements made of printable expressions.
pub open spec fn printable_stmt(s: StmtV) -> bool {
    match s.kind {
        StmtKindV::NameDeclaration { rhs, .. } => block_free(rhs),
        StmtKindV::Expression { expr } => block_free(expr),
        StmtKindV::FunctionDeclaration { .. } => false,
    }
}

/// How deeply binary expressions nest in `e`.
pub open spec fn expr_depth(e: ExprV) -> nat
    decreases e,
{
    match e.kind {
        ExprKindV::Binary { lhs, rhs, .. } => {
            let l = expr_depth(*lhs);
            let r = expr_depth(*rhs);
            1 + if l < r {
                r
            } else {
                l
            }
        },
        _ => 0,
    }
}

/// How far the printer indents while printing `s`.
pub open spec fn stmt_depth(s: StmtV) -> nat {
    match s.kind {
        StmtKindV::NameDeclaration { rhs, .. } => 1 + expr_depth(rhs),
        StmtKindV::Expression { expr } => expr_depth(expr),
        StmtKindV::FunctionDeclaration { .. } => 0,
    }
}

/// How a possibly missing type annotation is printed.
pub open spec fn spec_debug_ty(ty: Option<TolType>) -> Seq<char> {
    match ty {
        None => "None"@,
        Some(TolType::Numero) => "Some(Numero)"@,
        Some(TolType::Lutang) => "Some(Lutang)"@,
        Some(TolType::Wala) => "Some(Wala)"@,
        Some(TolType::DiAlam) => "Some(DiAlam)"@,
    }
}

/// One line: the indentation, the text and a line break.
pub open spec fn line(indent: nat, text: Seq<char>) -> Seq<char> {
    spaces(indent) + text + "\n"@
}

/// The printout of an expression at indentation `indent`, indenting nested
/// parts by `size` more.
pub open spec fn spec_pretty_expr(e: ExprV, indent: nat, size: nat) -> Seq<char>
    decreases e,
{
    match e.kind {
        ExprKindV::Integer(t) => "Integer ("@ + t.lexeme + ")"@,
        ExprKindV::Float(t) => "Float ("@ + t.lexeme + ")"@,
        ExprKindV::Identifier(t) => "Identifier ("@ + t.lexeme + ")"@,
        ExprKindV::Binary { lhs, rhs, op } => {
            let inner = indent + size;
            "Binary {"@ + "\n"@ + line(inner, "lhs: "@ + spec_pretty_expr(*lhs, inner, size)) + line(
                inner,
                "rhs: "@ + spec_pretty_expr(*rhs, inner, size),
            ) + line(inner, "op: "@ + op.lexeme) + spaces(indent) + "}"@
        },
        ExprKindV::Block { .. } => Seq::empty(),
    }
}

/// The lines that print a statement at indentation `indent`.
pub open spec fn spec_pretty_stmt(s: StmtV, indent: nat, size: nat) -> Seq<char> {
    match s.kind {
        StmtKindV::NameDeclaration { name, ty, rhs, .. } => {
            let inner = indent + size;
            line(indent, "Name Declaration {"@) + line(inner, "name: "@ + name.lexeme) + line(
                inner,
                "ty: "@ + spec_debug_ty(ty),
            ) + line(inner, "rhs: "@ + spec_pretty_expr(rhs, inner, size)) + line(indent, "}"@)
        },
        StmtKindV::Expression { expr } => line(
            indent,
            "Expression Statement ("@ + spec_pretty_expr(expr, indent, size) + ")"@,
        ),
        StmtKindV::FunctionDeclaration { .. } => Seq::empty(),
    }
}

/// The printout of statements, one after the other.
pub open spec fn spec_pretty_program(ss: Seq<StmtV>, indent: nat, size: nat) -> Seq<char>
    decreases ss.len(),
{
    if ss.len() == 0 {
        Seq::empty()
    } else {
        spec_pretty_stmt(ss[0], indent, size) + spec_pretty_program(
            ss.subrange(1, ss.len() as int),
            indent,
            size,
        )
    }
}

/// Statements that the printer can print at indentation `indent` without
/// the indentation overflowing.
pub open spec fn printable_program(ss: Seq<StmtV>, indent: nat, size: nat) -> bool {
    forall|i: int|
        0 <= i < ss.len() ==> printable_stmt(#[trigger] ss[i]) && indent + (stmt_depth(ss[i]) + 1)
            * size <= usize::MAX
}

// ---------------------------------------------------------------------------
// The printer.
// ---------------------------------------------------------------------------

/// A pretty printer for AST nodes
pub struct ASTPrettyPrinter<'ast> {
    pub input_ast: &'ast [Stmt],
    pub indent: usize,
    pub indent_size: u8,
    pub buffer: String,
}

impl<'ast> ASTPrettyPrinter<'ast> {
    pub fn new(input_ast: &'ast [Stmt], indent_size: u8) -> (p: Self)
        ensures
            p.input_ast == input_ast,
            p.indent == 0,
            p.indent_size == indent_size,
            p.buffer@ == Seq::<char>::empty(),
    {
        Self { input_ast, indent: 0, indent_size, buffer: String::new() }
    }

    /// Prints every statement into the buffer and gives the whole printout.
    pub fn run(&mut self) -> (out: String)
        requires
            printable_program(
                stmts_view(old(self).input_ast@),
                old(self).indent as nat,
                old(self).indent_size as nat,
            ),
        ensures
            final(self).input_ast == old(self).input_ast,
            final(self).indent == old(self).indent,
            final(self).indent_size == old(self).indent_size,
            final(self).buffer@ == old(self).buffer@ + spec_pretty_program(
                stmts_view(old(self).input_ast@),
                old(self).indent as nat,
                old(self).indent_size as nat,
            ),
            out@ == final(self).buffer@,
    {
        let ghost ss = stmts_view(self.input_ast@);
        let ghost i0 = self.indent as nat;
        let ghost sz = self.indent_size as nat;
        let n = self.input_ast.len();
        let mut i: usize = 0;
        proof {
            lemma_stmts_view(self.input_ast@);
            assert(ss.subrange(0, n as int) =~= ss);
        }
        while i < n
            invariant
                0 <= i <= n,
                n == self.input_ast@.len(),
                ss == stmts_view(self.input_ast@),
                ss.len() == n,
                self.input_ast == old(self).input_ast,
                self.indent == i0,
                self.indent_size == sz,
                printable_program(ss, i0, sz),
                old(self).buffer@ + spec_pretty_program(ss, i0, sz) == self.buffer@
                    + spec_pretty_program(ss.subrange(i as int, n as int), i0, sz),
            decreases n - i,
        {
            proof {
                lemma_stmts_view(self.input_ast@);
                assert(ss[i as int] == self.input_ast@[i as int]@);
                assert(ss.subrange(i as int, n as int)[0] == ss[i as int]);
                assert(ss.subrange(i as int, n as int).subrange(1, (n - i) as int) =~= ss.subrange(
                    i + 1,
                    n as int,
                ));
                assert(printable_stmt(ss[i as int]));
            }
            let ghost before = self.buffer@;
            let input = self.input_ast;
            self.pretty_statement(&input[i]);
            proof {
                assert(before + spec_pretty_program(ss.subrange(i as int, n as int), i0, sz) =~= self.buffer@
                    + spec_pretty_program(ss.subrange(i + 1, n as int), i0, sz));
            }
            i = i + 1;
        }
        proof {
            assert(ss.subrange(n as int, n as int) =~= Seq::<StmtV>::empty());
            assert(old(self).buffer@ + spec_pretty_program(ss, i0, sz) =~= self.buffer@);
        }
        self.buffer.clone()
    }

    /// Prints a statement as lines at the end of the buffer.
    pub fn pretty_statement(&mut self, statement: &Stmt)
        requires
            printable_stmt(statement@),
            old(self).indent + (stmt_depth(statement@) + 1) * old(self).indent_size <= usize::MAX,
        ensures
            final(self).input_ast == old(self).input_ast,
            final(self).indent == old(self).indent,
            final(self).indent_size == old(self).indent_size,
            final(self).buffer@ == old(self).buffer@ + spec_pretty_stmt(
                statement@,
                old(self).indent as nat,
                old(self).indent_size as nat,
            ),
    {
        let ghost i0 = self.indent as nat;
        let ghost sz = self.indent_size as nat;
        match &statement.kind {
            StmtKind::NameDeclaration { name, ty, rhs, .. } => {
                proof {
                    assert((stmt_depth(statement@) + 1) * sz == (expr_depth(rhs@) + 1) * sz + sz)
                        by (nonlinear_arith)
                        requires
                            stmt_depth(statement@) == 1 + expr_depth(rhs@),
                    ;
                }
                let ghost b0 = self.buffer@;
                self.writeln("Name Declaration {");
                self.indent();
                let mut text = String::new();
                push_str(&mut text, "name: ");
                push_str(&mut text, name.lexeme());
                self.writeln(text.as_str());
                let mut text = String::new();
                push_str(&mut text, "ty: ");
                push_debug_ty(&mut text, ty);
                self.writeln(text.as_str());
                let rhs_text = self.pretty_expression(rhs);
                let mut text = String::new();
                push_str(&mut text, "rhs: ");
                push_string(&mut text, &rhs_text);
                self.writeln(text.as_str());
                self.dedent();
                self.writeln("}");
                proof {
                    assert(self.buffer@ =~= b0 + spec_pretty_stmt(statement@, i0, sz));
                }
            },
            StmtKind::Expression { expr } => {
                let expr_text = self.pretty_expression(expr);
                let mut text = String::new();
                push_str(&mut text, "Expression Statement (");
                push_string(&mut text, &expr_text);
                push_str(&mut text, ")");
                self.writeln(text.as_str());
                proof {
                    assert(self.buffer@ =~= old(self).buffer@ + spec_pretty_stmt(statement@, i0, sz));
                }
            },
            StmtKind::FunctionDeclaration { .. } => unreached(),
        }
    }

    /// The printout of an expression at the current indentation.
    pub fn pretty_expression(&mut self, expression: &Expr) -> (out: String)
        requires
            block_free(expression@),
            old(self).indent + (expr_depth(expression@) + 1) * old(self).indent_size <= usize::MAX,
        ensures
            *final(self) == *old(self),
            out@ == spec_pretty_expr(
                expression@,
                old(self).indent as nat,
                old(self).indent_size as nat,
            ),
        decreases expression@,
    {
        let ghost i0 = self.indent as nat;
        let ghost sz = self.indent_size as nat;
        let mut expr_buf = String::new();
        match &expression.kind {
            ExprKind::Integer(token) => {
                push_str(&mut expr_buf, "Integer (");
                push_str(&mut expr_buf, token.lexeme());
                push_str(&mut expr_buf, ")");
            },
            ExprKind::Float(token) => {
                push_str(&mut expr_buf, "Float (");
                push_str(&mut expr_buf, token.lexeme());
                push_str(&mut expr_buf, ")");
            },
            ExprKind::Identifier(token) => {
                push_str(&mut expr_buf, "Identifier (");
                push_str(&mut expr_buf, token.lexeme());
                push_str(&mut expr_buf, ")");
            },
            ExprKind::Binary { lhs, rhs, op } => {
                proof {
                    let l = expr_depth(lhs@);
                    let r = expr_depth(rhs@);
                    let d = expr_depth(expression@);
                    assert(l < d && r < d);
                    assert((d + 1) * sz >= (l + 1) * sz + sz) by (nonlinear_arith)
                        requires
                            l < d,
                    ;
                    assert((d + 1) * sz >= (r + 1) * sz + sz) by (nonlinear_arith)
                        requires
                            r < d,
                    ;
                }
                push_str(&mut expr_buf, "Binary {");
                push_str(&mut expr_buf, "\n");
                self.indent();
                let lhs_text = self.pretty_expression(lhs);
                let mut text = String::new();
                push_str(&mut text, "lhs: ");
                push_string(&mut text, &lhs_text);
                self.writeln_buf(&mut expr_buf, text.as_str());
                let rhs_text = self.pretty_expression(rhs);
                let mut text = String::new();
                push_str(&mut text, "rhs: ");
                push_string(&mut text, &rhs_text);
                self.writeln_buf(&mut expr_buf, text.as_str());
                let mut text = String::new();
                push_str(&mut text, "op: ");
                push_str(&mut text, op.lexeme());
                self.writeln_buf(&mut expr_buf, text.as_str());
                self.dedent();
                push_spaces(&mut expr_buf, self.indent);
                push_str(&mut expr_buf, "}");
            },
            ExprKind::Block { .. } => unreached(),
        }
        proof {
            assert(expr_buf@ =~= spec_pretty_expr(expression@, i0, sz));
        }
        expr_buf
    }

    pub fn indent(&mut self)
        requires
            old(self).indent + old(self).indent_size <= usize::MAX,
        ensures
            *final(self) == (ASTPrettyPrinter {
                indent: (old(self).indent + old(self).indent_size) as usize,
                ..*old(self)
            }),
    {
        self.indent = self.indent + self.indent_size as usize;
    }

    pub fn dedent(&mut self)
        requires
            old(self).indent >= old(self).indent_size,
        ensures
            *final(self) == (ASTPrettyPrinter {
                indent: (old(self).indent - old(self).indent_size) as usize,
                ..*old(self)
            }),
    {
        self.indent = self.indent - self.indent_size as usize;
    }

    /// Writes `text` as a line of the buffer at the current indentation.
    pub fn writeln(&mut self, text: &str)
        ensures
            *final(self) == (ASTPrettyPrinter {
                buffer: final(self).buffer,
                ..*old(self)
            }),
            final(self).buffer@ == old(self).buffer@ + line(old(self).indent as nat, text@),
    {
        push_spaces(&mut self.buffer, self.indent);
        push_str(&mut self.buffer, text);
        push_str(&mut self.buffer, "\n");
        proof {
            assert(self.buffer@ =~= old(self).buffer@ + line(old(self).indent as nat, text@));
        }
    }

    /// Writes `text` as a line of `buf` at the current indentation.
    pub fn writeln_buf(&mut self, buf: &mut String, text: &str)
        ensures
            *final(self) == *old(self),
            final(buf)@ == old(buf)@ + line(old(self).indent as nat, text@),
    {
        push_spaces(buf, self.indent);
        push_str(buf, text);
        push_str(buf, "\n");
        proof {
            assert(buf@ =~= old(buf)@ + line(old(self).indent as nat, text@));
        }
    }
}

fn push_debug_ty(s: &mut String, ty: &Option<TolType>)
    ensures
        final(s)@ == old(s)@ + spec_debug_ty(*ty),
{
    match ty {
        None => push_str(s, "None"),
        Some(TolType::Numero) => push_str(s, "Some(Numero)"),
        Some(TolType::Lutang) => push_str(s, "Some(Lutang)"),
        Some(TolType::Wala) => push_str(s, "Some(Wala)"),
        Some(TolType::DiAlam) => push_str(s, "Some(DiAlam)"),
    }
}

} // verus!

verus! {

/// Dedenting after indenting brings the printer back to where it was.
pub proof fn lemma_dedent_undoes_indent(p: ASTPrettyPrinter)
    requires
        p.indent + p.indent_size <= usize::MAX,
    ensures
        ({
            let q = ASTPrettyPrinter { indent: (p.indent + p.indent_size) as usize, ..p };
            &&& q.indent >= q.indent_size
            &&& (ASTPrettyPrinter { indent: (q.indent - q.indent_size) as usize, ..q }) == p
        }),
{
}

} // verus!

verus! {

/// A binary expression closes with `}` at the indentation it is printed at.
pub proof fn lemma_binary_closes_at_indent(e: ExprV, indent: nat, size: nat)
    requires
        e.kind is Binary,
    ensures
        ({
            let p = spec_pretty_expr(e, indent, size);
            let tail = "\n"@ + spaces(indent) + "}"@;
            p.len() >= tail.len() && p.subrange(p.len() - tail.len(), p.len() as int) == tail
        }),
{
    let p = spec_pretty_expr(e, indent, size);
    let tail = "\n"@ + spaces(indent) + "}"@;
    match e.kind {
        ExprKindV::Binary { lhs, rhs, op } => {
            let inner = indent + size;
            let front = "Binary {"@ + "\n"@ + line(inner, "lhs: "@ + spec_pretty_expr(*lhs, inner, size))
                + line(inner, "rhs: "@ + spec_pretty_expr(*rhs, inner, size)) + spaces(inner) + "op: "@
                + op.lexeme;
            assert(p =~= front + tail);
        },
        _ => {},
    }
}

/// The operands of a binary expression printed at indentation `i` are
/// printed as they print on their own at indentation `i + size`, one step
/// deeper: the printout starts with the left operand's printout after
/// `lhs: `, then the right operand's printout after `rhs: `.
pub proof fn lemma_operands_print_one_step_deeper(e: ExprV, indent: nat, size: nat)
    requires
        e.kind is Binary,
    ensures
        ({
            let p = spec_pretty_expr(e, indent, size);
            let inner = indent + size;
            let head = "Binary {"@ + "\n"@ + spaces(inner) + "lhs: "@ + spec_pretty_expr(
                *e.kind->lhs,
                inner,
                size,
            ) + "\n"@ + spaces(inner) + "rhs: "@ + spec_pretty_expr(*e.kind->rhs, inner, size);
            p.len() >= head.len() && p.subrange(0, head.len() as int) == head
        }),
{
    let p = spec_pretty_expr(e, indent, size);
    let inner = indent + size;
    match e.kind {
        ExprKindV::Binary { lhs, rhs, op } => {
            let head = "Binary {"@ + "\n"@ + spaces(inner) + "lhs: "@ + spec_pretty_expr(*lhs, inner, size)
                + "\n"@ + spaces(inner) + "rhs: "@ + spec_pretty_expr(*rhs, inner, size);
            let rest = "\n"@ + line(inner, "op: "@ + op.lexeme) + spaces(indent) + "}"@;
            assert(p =~= head + rest);
            assert(p.subrange(0, head.len() as int) =~= head);
        },
        _ => {},
    }
}

/// A binary operand nested in a binary expression printed at indentation
/// `i` closes with `}` at indentation `i + size`.
pub proof fn lemma_nested_operand_closes_one_step_deeper(e: ExprV, indent: nat, size: nat)
    requires
        e.kind matches ExprKindV::Binary { lhs, .. } && lhs.kind is Binary,
    ensures
        ({
            let inner = indent + size;
            let pl = spec_pretty_expr(*e.kind->lhs, inner, size);
            let tail = "\n"@ + spaces(inner) + "}"@;
            let head = "Binary {"@ + "\n"@ + spaces(inner) + "lhs: "@ + pl;
            let p = spec_pretty_expr(e, indent, size);
            &&& p.len() >= head.len()
            &&& p.subrange(0, head.len() as int) == head
            &&& pl.len() >= tail.len()
            &&& pl.subrange(pl.len() - tail.len(), pl.len() as int) == tail
        }),
{
    lemma_operands_print_one_step_deeper(e, indent, size);
    lemma_binary_closes_at_indent(*e.kind->lhs, indent + size, size);
    let inner = indent + size;
    let pl = spec_pretty_expr(*e.kind->lhs, inner, size);
    let head = "Binary {"@ + "\n"@ + spaces(inner) + "lhs: "@ + pl;
    let head2 = head + "\n"@ + spaces(inner) + "rhs: "@ + spec_pretty_expr(*e.kind->rhs, inner, size);
    let p = spec_pretty_expr(e, indent, size);
    assert(head2.subrange(0, head.len() as int) =~= head);
    assert(p.subrange(0, head.len() as int) =~= p.subrange(0, head2.len() as int).subrange(0, head.len() as int));
}

} // verus!
