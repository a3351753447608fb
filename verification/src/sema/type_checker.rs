use vstd::prelude::*;

use crate::ast::expr::{lemma_stmts_view, spec_is_lvalue, stmts_view, Expr, ExprKind, ExprKindV, ExprV};
use crate::ast::stmt::{Stmt, StmtKind, StmtKindV, StmtV};
use crate::diagnostic::{err_view, error::TolError, TolDiagnostic, TolDiagnosticV, TolErrorV};
use crate::module::Module;
use crate::prelude::{copy_span, Span, TolResult};
use crate::symbol::{spec_symbol_ty, spec_with_type, SymbolKind, SymbolKindV, SymbolV};
use crate::token::TokenKind;
use crate::toltype::{spec_tol_str, TolType};

verus! {

// ---------------------------------------------------------------------------
// The model of type checking.
// ---------------------------------------------------------------------------

/// What type checking works on: the symbol table and the diagnostics of the
/// module (once its list was set up).
pub struct TcState {
    pub symbols: Seq<SymbolV>,
    pub diags: Option<Seq<TolDiagnosticV>>,
}

/// Reports `d`; `None` where the module has no list of diagnostics.
pub open spec fn tc_report(st: TcState, d: TolDiagnosticV) -> Option<TcState> {
    match st.diags {
        None => None,
        Some(ds) => Some(TcState { diags: Some(ds.push(d)), ..st }),
    }
}

/// The one type that values of types `lhs` and `rhs` can both be turned into.
pub open spec fn spec_common_type(lhs: TolType, rhs: TolType) -> Option<TolType> {
    if lhs == rhs {
        Some(lhs)
    } else if (lhs == TolType::Numero && rhs == TolType::Lutang) || (lhs == TolType::Lutang && rhs
        == TolType::Numero) {
        Some(TolType::Lutang)
    } else {
        None
    }
}

/// Whether a value of type `rhs` may be stored where a `lhs` is expected.
pub open spec fn spec_assignable(lhs: TolType, rhs: TolType) -> bool {
    lhs == rhs || (lhs == TolType::Numero && rhs == TolType::Lutang) || (lhs == TolType::Lutang
        && rhs == TolType::Numero) || lhs == TolType::DiAlam
}

/// The outcome of checking that `rhs`, written at `rhs_span`, can be stored in a `lhs`.
pub open spec fn spec_check_assignable(lhs: TolType, rhs: TolType, rhs_span: Span) -> Result<
    (),
    TolDiagnosticV,
> {
    if spec_assignable(lhs, rhs) {
        Ok(())
    } else {
        Err(
            TolDiagnosticV::Error(
                TolErrorV::InvalidAssignment {
                    lhs_ty_str: spec_tol_str(lhs),
                    rhs_ty_str: spec_tol_str(rhs),
                    rhs_span,
                },
            ),
        )
    }
}

/// Infers the type of a name from the symbol it was resolved to. `None`
/// where the name was not resolved or names a function.
pub open spec fn spec_infer_identifier(st: TcState, e: ExprV) -> Option<
    (TcState, Result<TolType, TolDiagnosticV>),
> {
    match e.kind {
        ExprKindV::Identifier(tok) => match e.symbol_id {
            None => None,
            Some(id) => if id < st.symbols.len() {
                match st.symbols[id as int].kind {
                    SymbolKindV::Name { declared_type, .. } => match declared_type {
                        Some(ty) => Some((st, Ok(ty))),
                        None => Some(
                            (
                                st,
                                Err(
                                    TolDiagnosticV::Error(
                                        TolErrorV::UnableToInferType { span: tok.span },
                                    ),
                                ),
                            ),
                        ),
                    },
                    SymbolKindV::Function { .. } => None,
                }
            } else {
                None
            },
        },
        _ => None,
    }
}

/// Infers the type of an expression, checking its parts. `None` where the
/// checker cannot go on (see `spec_infer_identifier`, and binary operators
/// other than `=`, `+`, `-`, `*` and `/`).
pub open spec fn spec_infer(st: TcState, e: ExprV) -> Option<
    (TcState, Result<TolType, TolDiagnosticV>),
>
    decreases e, 0int,
{
    match e.kind {
        ExprKindV::Integer(_) => Some((st, Ok(TolType::Numero))),
        ExprKindV::Float(_) => Some((st, Ok(TolType::Lutang))),
        ExprKindV::Identifier(_) => spec_infer_identifier(st, e),
        ExprKindV::Binary { lhs, rhs, op } => if op.kind == TokenKind::Equal {
            if !spec_is_lvalue(lhs.kind) {
                Some(
                    (
                        st,
                        Err(
                            TolDiagnosticV::Error(TolErrorV::UnexpectedLValue { span: lhs.span }),
                        ),
                    ),
                )
            } else {
                match spec_infer(st, *lhs) {
                    None => None,
                    Some((st1, Err(d))) => Some((st1, Err(d))),
                    Some((st1, Ok(lt))) => match spec_infer(st1, *rhs) {
                        None => None,
                        Some((st2, Err(d))) => Some((st2, Err(d))),
                        Some((st2, Ok(rt))) => match spec_check_assignable(lt, rt, rhs.span) {
                            Err(d) => Some((st2, Err(d))),
                            Ok(_) => match lhs.symbol_id {
                                None => None,
                                Some(id) => if id < st2.symbols.len() {
                                    if spec_symbol_ty(st2.symbols[id as int]) is None {
                                        Some(
                                            (
                                                TcState {
                                                    symbols: st2.symbols.update(
                                                        id as int,
                                                        spec_with_type(st2.symbols[id as int], rt),
                                                    ),
                                                    ..st2
                                                },
                                                Ok(TolType::Wala),
                                            ),
                                        )
                                    } else {
                                        Some((st2, Ok(TolType::Wala)))
                                    }
                                } else {
                                    None
                                },
                            },
                        },
                    },
                }
            }
        } else if op.kind == TokenKind::Plus || op.kind == TokenKind::Minus || op.kind
            == TokenKind::Star || op.kind == TokenKind::Slash {
            match spec_infer(st, *lhs) {
                None => None,
                Some((st1, Err(d))) => Some((st1, Err(d))),
                Some((st1, Ok(lt))) => match spec_infer(st1, *rhs) {
                    None => None,
                    Some((st2, Err(d))) => Some((st2, Err(d))),
                    Some((st2, Ok(rt))) => match spec_common_type(lt, rt) {
                        Some(t) => Some((st2, Ok(t))),
                        None => Some(
                            (
                                st2,
                                Err(
                                    TolDiagnosticV::Error(
                                        TolErrorV::InvalidOperandTypes {
                                            lhs_ty_str: spec_tol_str(lt),
                                            rhs_ty_str: spec_tol_str(rt),
                                            operator: op.lexeme,
                                            lhs_span: lhs.span,
                                            rhs_span: rhs.span,
                                        },
                                    ),
                                ),
                            ),
                        ),
                    },
                },
            }
        } else {
            None
        },
        ExprKindV::Block { statements } => match spec_check_block(st, statements) {
            None => None,
            Some(st1) => Some((st1, Ok(TolType::Wala))),
        },
    }
}

/// Checks statements one after the other, reporting the error of each.
pub open spec fn spec_check_block(st: TcState, ss: Seq<StmtV>) -> Option<TcState>
    decreases ss, 0int,
{
    if ss.len() == 0 {
        Some(st)
    } else {
        match spec_check_stmt(st, ss[0]) {
            None => None,
            Some((st1, r)) => {
                let st2 = match r {
                    Ok(_) => Some(st1),
                    Err(d) => tc_report(st1, d),
                };
                match st2 {
                    None => None,
                    Some(st3) => spec_check_block(st3, ss.subrange(1, ss.len() as int)),
                }
            },
        }
    }
}

/// Checks a statement. A name declared without a type gets the type of its
/// value; one declared with a type must be able to hold its value.
pub open spec fn spec_check_stmt(st: TcState, s: StmtV) -> Option<
    (TcState, Result<(), TolDiagnosticV>),
>
    decreases s, 0int,
{
    match s.kind {
        StmtKindV::NameDeclaration { ty, rhs, .. } => match spec_infer(st, rhs) {
            None => None,
            Some((st1, Err(d))) => Some((st1, Err(d))),
            Some((st1, Ok(rt))) => match ty {
                Some(t) => Some((st1, spec_check_assignable(t, rt, rhs.span))),
                None => match s.symbol_id {
                    None => None,
                    Some(id) => if id < st1.symbols.len() {
                        Some(
                            (
                                TcState {
                                    symbols: st1.symbols.update(
                                        id as int,
                                        spec_with_type(st1.symbols[id as int], rt),
                                    ),
                                    ..st1
                                },
                                Ok(()),
                            ),
                        )
                    } else {
                        None
                    },
                },
            },
        },
        StmtKindV::FunctionDeclaration { block, .. } => match spec_infer(st, block) {
            None => None,
            Some((st1, Err(d))) => Some((st1, Err(d))),
            Some((st1, Ok(_))) => Some((st1, Ok(()))),
        },
        StmtKindV::Expression { expr } => match spec_infer(st, expr) {
            None => None,
            Some((st1, Err(d))) => Some((st1, Err(d))),
            Some((st1, Ok(_))) => Some((st1, Ok(()))),
        },
    }
}

// ---------------------------------------------------------------------------
// The type checker.
// ---------------------------------------------------------------------------

/// Infers the types of expressions and checks declarations and assignments.
pub struct TypeChecker<'sema> {
    pub modul: &'sema mut Module,
}

impl<'sema> TypeChecker<'sema> {
    /// The state that the model of type checking speaks of.
    pub open spec fn state(&self) -> TcState {
        TcState { symbols: (*self.modul)@.symbols, diags: (*self.modul)@.diagnostics }
    }

    pub fn new(modul: &'sema mut Module) -> (t: Self)
        ensures
            *t.modul == *old(modul),
            *final(t.modul) == *final(modul),
    {
        Self { modul }
    }

    /// Checks every statement of the module, reporting the error of each.
    pub fn run(&mut self)
        requires
            spec_check_block(old(self).state(), (*old(self).modul)@.ast) is Some,
        ensures
            *final(final(self).modul) == *final(old(self).modul),
            spec_check_block(old(self).state(), (*old(self).modul)@.ast) == Some(final(self).state()),
            (*final(self).modul)@.ast == (*old(self).modul)@.ast,
            (*final(self).modul)@.source == (*old(self).modul)@.source,
    {
        let ast = self.modul.take_ast();
        self.check_statements(&ast);
        self.modul.set_ast(ast);
    }

    /// Checks the statements one after the other, reporting the error of each.
    fn check_statements(&mut self, statements: &Vec<Stmt>)
        requires
            spec_check_block(old(self).state(), stmts_view(statements@)) is Some,
        ensures
            *final(final(self).modul) == *final(old(self).modul),
            spec_check_block(old(self).state(), stmts_view(statements@)) == Some(final(self).state()),
            (*final(self).modul)@.ast == (*old(self).modul)@.ast,
            (*final(self).modul)@.source == (*old(self).modul)@.source,
        decreases stmts_view(statements@), 1int,
    {
        let ghost ss = stmts_view(statements@);
        let ghost total = spec_check_block(self.state(), ss);
        let n = statements.len();
        let mut i: usize = 0;
        proof {
            lemma_stmts_view(statements@);
            assert(ss.subrange(0, n as int) =~= ss);
        }
        while i < n
            invariant
                0 <= i <= n,
                n == statements@.len(),
                ss == stmts_view(statements@),
                ss.len() == n,
                *final(self.modul) == *final(old(self).modul),
                (*self.modul)@.ast == (*old(self).modul)@.ast,
                (*self.modul)@.source == (*old(self).modul)@.source,
                total is Some,
                spec_check_block(self.state(), ss.subrange(i as int, n as int)) == total,
            decreases n - i,
        {
            proof {
                lemma_stmts_view(statements@);
                assert(ss.subrange(i as int, n as int)[0] == statements@[i as int]@);
                assert(ss.subrange(i as int, n as int).subrange(1, (n - i) as int) =~= ss.subrange(
                    i + 1,
                    n as int,
                ));
                assert(decreases_to!(ss => ss[i as int]));
            }
            if let Err(diag) = self.check_statement(&statements[i]) {
                self.modul.add_diagnostic(diag);
            }
            i = i + 1;
        }
        proof {
            assert(ss.subrange(n as int, n as int) =~= Seq::<StmtV>::empty());
        }
    }

    fn check_statement(&mut self, statement: &Stmt) -> (res: TolResult<()>)
        requires
            spec_check_stmt(old(self).state(), statement@) is Some,
        ensures
            *final(final(self).modul) == *final(old(self).modul),
            spec_check_stmt(old(self).state(), statement@) == Some((final(self).state(), err_view(res))),
            (*final(self).modul)@.ast == (*old(self).modul)@.ast,
            (*final(self).modul)@.source == (*old(self).modul)@.source,
        decreases statement@, 2int,
    {
        match &statement.kind {
            StmtKind::NameDeclaration { .. } => self.check_name_declaration(statement),
            StmtKind::FunctionDeclaration { .. } => self.check_par(statement),
            StmtKind::Expression { expr } => {
                self.infer_expression(expr)?;
                Ok(())
            },
        }
    }

    fn check_name_declaration(&mut self, name_declaration: &Stmt) -> (res: TolResult<()>)
        requires
            name_declaration@.kind is NameDeclaration,
            spec_check_stmt(old(self).state(), name_declaration@) is Some,
        ensures
            *final(final(self).modul) == *final(old(self).modul),
            spec_check_stmt(old(self).state(), name_declaration@) == Some(
                (final(self).state(), err_view(res)),
            ),
            (*final(self).modul)@.ast == (*old(self).modul)@.ast,
            (*final(self).modul)@.source == (*old(self).modul)@.source,
        decreases name_declaration@, 1int,
    {
        match &name_declaration.kind {
            StmtKind::NameDeclaration { ty, rhs, .. } => {
                let rhs_ty = self.infer_expression(rhs)?;
                match ty {
                    Some(t) => self.check_assignable(t, &rhs_ty, copy_span(rhs.span()))?,
                    None => {
                        let id = name_declaration.symbol_id().unwrap();
                        self.modul.set_symbol_type(id, rhs_ty);
                    },
                }
                Ok(())
            },
            _ => unreached(),
        }
    }

    fn check_par(&mut self, par: &Stmt) -> (res: TolResult<()>)
        requires
            par@.kind is FunctionDeclaration,
            spec_check_stmt(old(self).state(), par@) is Some,
        ensures
            *final(final(self).modul) == *final(old(self).modul),
            spec_check_stmt(old(self).state(), par@) == Some((final(self).state(), err_view(res))),
            (*final(self).modul)@.ast == (*old(self).modul)@.ast,
            (*final(self).modul)@.source == (*old(self).modul)@.source,
        decreases par@, 1int,
    {
        match &par.kind {
            StmtKind::FunctionDeclaration { block, .. } => {
                self.infer_expression(block)?;
                Ok(())
            },
            _ => unreached(),
        }
    }

    fn infer_expression(&mut self, expression: &Expr) -> (res: TolResult<TolType>)
        requires
            spec_infer(old(self).state(), expression@) is Some,
        ensures
            *final(final(self).modul) == *final(old(self).modul),
            spec_infer(old(self).state(), expression@) == Some((final(self).state(), err_view(res))),
            (*final(self).modul)@.ast == (*old(self).modul)@.ast,
            (*final(self).modul)@.source == (*old(self).modul)@.source,
        decreases expression@, 3int,
    {
        match &expression.kind {
            ExprKind::Integer(_) => Ok(TolType::Numero),
            ExprKind::Float(_) => Ok(TolType::Lutang),
            ExprKind::Identifier(_) => self.infer_identifier(expression),
            ExprKind::Binary { .. } => self.infer_binary(expression),
            ExprKind::Block { statements } => {
                self.check_statements(statements);
                Ok(TolType::Wala)
            },
        }
    }

    fn infer_identifier(&mut self, identifier: &Expr) -> (res: TolResult<TolType>)
        requires
            spec_infer_identifier(old(self).state(), identifier@) is Some,
        ensures
            *final(final(self).modul) == *final(old(self).modul),
            spec_infer_identifier(old(self).state(), identifier@) == Some(
                (final(self).state(), err_view(res)),
            ),
            (*final(self).modul)@.ast == (*old(self).modul)@.ast,
            (*final(self).modul)@.source == (*old(self).modul)@.source,
    {
        let token = match &identifier.kind {
            ExprKind::Identifier(token) => token,
            _ => unreached(),
        };
        let id = identifier.symbol_id().unwrap();
        let symbol = self.modul.get_symbol(id).unwrap();
        match symbol.kind() {
            SymbolKind::Name { declared_type, .. } => match declared_type {
                Some(ty) => Ok(*ty),
                None => Err(
                    TolDiagnostic::new_error(
                        TolError::UnableToInferType { span: copy_span(token.span()) },
                    ),
                ),
            },
            SymbolKind::Function { .. } => unreached(),
        }
    }

    /// Infers the type of a binary expression: `wala` for an assignment, the
    /// common type of the operands for arithmetic.
    pub fn infer_binary(&mut self, binary: &Expr) -> (res: TolResult<TolType>)
        requires
            binary@.kind is Binary,
            spec_infer(old(self).state(), binary@) is Some,
        ensures
            *final(final(self).modul) == *final(old(self).modul),
            spec_infer(old(self).state(), binary@) == Some((final(self).state(), err_view(res))),
            (*final(self).modul)@.ast == (*old(self).modul)@.ast,
            (*final(self).modul)@.source == (*old(self).modul)@.source,
        decreases binary@, 2int,
    {
        let kind = match &binary.kind {
            ExprKind::Binary { op, .. } => *op.kind(),
            _ => unreached(),
        };
        match kind {
            TokenKind::Equal => self.infer_assignment(binary),
            TokenKind::Plus | TokenKind::Minus | TokenKind::Star | TokenKind::Slash => {
                self.infer_arithmetic(binary)
            },
            _ => unreached(),
        }
    }

    fn infer_assignment(&mut self, binary: &Expr) -> (res: TolResult<TolType>)
        requires
            binary@.kind matches ExprKindV::Binary { op, .. } && op.kind == TokenKind::Equal,
            spec_infer(old(self).state(), binary@) is Some,
        ensures
            *final(final(self).modul) == *final(old(self).modul),
            spec_infer(old(self).state(), binary@) == Some((final(self).state(), err_view(res))),
            (*final(self).modul)@.ast == (*old(self).modul)@.ast,
            (*final(self).modul)@.source == (*old(self).modul)@.source,
        decreases binary@, 1int,
    {
        let (lhs, rhs) = match &binary.kind {
            ExprKind::Binary { lhs, rhs, .. } => (lhs, rhs),
            _ => unreached(),
        };
        proof {
            assert(binary@.kind->lhs == Box::new((**lhs)@));
        }
        if !lhs.kind().is_lvalue() {
            return Err(
                TolDiagnostic::new_error(TolError::UnexpectedLValue { span: copy_span(lhs.span()) }),
            );
        }
        let lhs_type = self.infer_expression(lhs)?;
        let rhs_type = self.infer_expression(rhs)?;
        self.check_assignable(&lhs_type, &rhs_type, copy_span(rhs.span()))?;
        let left_symbol_id = lhs.symbol_id().unwrap();
        let untyped = self.modul.get_symbol(left_symbol_id).unwrap().ty().is_none();
        if untyped {
            self.modul.set_symbol_type(left_symbol_id, rhs_type);
        }
        Ok(TolType::Wala)
    }

    fn infer_arithmetic(&mut self, binary: &Expr) -> (res: TolResult<TolType>)
        requires
            binary@.kind matches ExprKindV::Binary { op, .. } && (op.kind == TokenKind::Plus
                || op.kind == TokenKind::Minus || op.kind == TokenKind::Star || op.kind
                == TokenKind::Slash),
            spec_infer(old(self).state(), binary@) is Some,
        ensures
            *final(final(self).modul) == *final(old(self).modul),
            spec_infer(old(self).state(), binary@) == Some((final(self).state(), err_view(res))),
            (*final(self).modul)@.ast == (*old(self).modul)@.ast,
            (*final(self).modul)@.source == (*old(self).modul)@.source,
        decreases binary@, 1int,
    {
        let (lhs, rhs, op) = match &binary.kind {
            ExprKind::Binary { lhs, rhs, op } => (lhs, rhs, op),
            _ => unreached(),
        };
        let lhs_type = self.infer_expression(lhs)?;
        let rhs_type = self.infer_expression(rhs)?;
        match self.common_type(&lhs_type, &rhs_type) {
            Some(t) => Ok(t),
            None => Err(
                TolDiagnostic::new_error(
                    TolError::InvalidOperandTypes {
                        lhs_ty_str: lhs_type.to_tol_str(),
                        rhs_ty_str: rhs_type.to_tol_str(),
                        operator: op.lexeme_string(),
                        lhs_span: copy_span(lhs.span()),
                        rhs_span: copy_span(rhs.span()),
                    },
                ),
            ),
        }
    }

    /// The one type that both operand types can be turned into.
    pub fn common_type(&self, lhs: &TolType, rhs: &TolType) -> (t: Option<TolType>)
        ensures
            t == spec_common_type(*lhs, *rhs),
    {
        if *lhs == *rhs {
            return Some(*lhs);
        }
        match (lhs, rhs) {
            (TolType::Numero, TolType::Lutang) | (TolType::Lutang, TolType::Numero) => Some(
                TolType::Lutang,
            ),
            _ => None,
        }
    }

    /// Checks that a value of type `rhs`, written at `rhs_span`, can be stored in a `lhs`.
    pub fn check_assignable(&self, lhs: &TolType, rhs: &TolType, rhs_span: Span) -> (res: TolResult<()>)
        ensures
            err_view(res) == spec_check_assignable(*lhs, *rhs, rhs_span),
    {
        if *lhs == *rhs {
            return Ok(());
        }
        match (lhs, rhs) {
            (TolType::Numero, TolType::Lutang) | (TolType::Lutang, TolType::Numero) => Ok(()),
            (TolType::DiAlam, _) => Ok(()),
            _ => Err(
                TolDiagnostic::new_error(
                    TolError::InvalidAssignment {
                        lhs_ty_str: lhs.to_tol_str(),
                        rhs_ty_str: rhs.to_tol_str(),
                        rhs_span,
                    },
                ),
            ),
        }
    }
}

} // verus!

verus! {

// ---------------------------------------------------------------------------
// Laws of type checking.
// ---------------------------------------------------------------------------

/// The common type of two types does not depend on their order, and a type
/// is common with itself.
pub proof fn lemma_common_type_symmetric(a: TolType, b: TolType)
    ensures
        spec_common_type(a, b) == spec_common_type(b, a),
        spec_common_type(a, a) == Some(a),
{
}

/// Values of both operand types can be stored where their common type is expected.
pub proof fn lemma_common_type_assignable(a: TolType, b: TolType)
    ensures
        spec_common_type(a, b) matches Some(c) ==> spec_assignable(c, a) && spec_assignable(c, b),
{
}

/// A value can always be stored where a value of its own type is expected,
/// and the check then reports nothing.
pub proof fn lemma_assignable_reflexive(t: TolType, span: Span)
    ensures
        spec_assignable(t, t),
        spec_check_assignable(t, t, span) == Ok::<(), TolDiagnosticV>(()),
{
}

/// A name declared without a type takes the type of its value, and a later
/// use of the name is inferred to have that type.
pub proof fn lemma_declared_type_is_inferred(st: TcState, decl: StmtV, use_: ExprV)
    requires
        decl.kind matches StmtKindV::NameDeclaration { ty, rhs, .. } && ty is None && (rhs.kind is Integer
            || rhs.kind is Float),
        decl.symbol_id matches Some(id) && id < st.symbols.len() && st.symbols[id as int].kind is Name,
        use_.kind is Identifier,
        use_.symbol_id == decl.symbol_id,
    ensures
        ({
            let rhs = decl.kind->NameDeclaration_rhs;
            let t = if rhs.kind is Integer {
                TolType::Numero
            } else {
                TolType::Lutang
            };
            let (st1, r) = spec_check_stmt(st, decl).unwrap();
            &&& r == Ok::<(), TolDiagnosticV>(())
            &&& spec_infer(st1, use_) == Some((st1, Ok::<TolType, TolDiagnosticV>(t)))
        }),
{
}

} // verus!

verus! {

/// Whether a type is one of the two number types.
pub open spec fn is_numeric(t: TolType) -> bool {
    t == TolType::Numero || t == TolType::Lutang
}

/// Arithmetic on numbers is `lutang` as soon as either operand is `lutang`
/// and `numero` otherwise, whichever side each operand is on; on two
/// operands of one type it has that type.
pub proof fn lemma_arithmetic_type(
    st: TcState,
    e: ExprV,
    st1: TcState,
    lt: TolType,
    st2: TcState,
    rt: TolType,
)
    requires
        e.kind matches ExprKindV::Binary { lhs, rhs, op } && (op.kind == TokenKind::Plus || op.kind
            == TokenKind::Minus || op.kind == TokenKind::Star || op.kind == TokenKind::Slash)
            && spec_infer(st, *lhs) == Some((st1, Ok::<TolType, TolDiagnosticV>(lt))) && spec_infer(
            st1,
            *rhs,
        ) == Some((st2, Ok::<TolType, TolDiagnosticV>(rt))),
        (is_numeric(lt) && is_numeric(rt)) || lt == rt,
    ensures
        spec_infer(st, e) == Some(
            (
                st2,
                Ok::<TolType, TolDiagnosticV>(
                    if lt == rt {
                        lt
                    } else if lt == TolType::Lutang || rt == TolType::Lutang {
                        TolType::Lutang
                    } else {
                        TolType::Numero
                    },
                ),
            ),
        ),
{
}

} // verus!
