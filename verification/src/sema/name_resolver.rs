use vstd::prelude::*;

use crate::ast::expr::{lemma_stmts_view, stmts_view, Expr, ExprKind, ExprKindV, ExprV};
use crate::ast::stmt::{Stmt, StmtKind, StmtKindV, StmtV};
use crate::ast::{params_view, Param, ParamV};
use crate::diagnostic::{err_view, error::TolError, TolDiagnostic, TolDiagnosticV, TolErrorV};
use crate::module::Module;
use crate::prelude::{copy_span, TolResult};
use crate::sema::analyzer_ctx::{current_lookup, scopes_lookup, spec_bind, spec_exit, AnalyzerCtx, ScopeV};
use crate::symbol::{Symbol, SymbolKindV, SymbolV};
use crate::token::TokenV;
use crate::toltype::TolType;

verus! {

// ---------------------------------------------------------------------------
// The model of name resolution.
// ---------------------------------------------------------------------------

/// What name resolution works on: the open scopes, the symbol table, the
/// diagnostics of the module (once its list was set up) and whether an error
/// was reported.
pub struct ResState {
    pub scopes: Seq<ScopeV>,
    pub symbols: Seq<SymbolV>,
    pub diags: Option<Seq<TolDiagnosticV>>,
    pub had_error: bool,
}

/// Reports `d`; `None` where the module has no list of diagnostics to add it to.
pub open spec fn rs_report(st: ResState, d: TolDiagnosticV) -> Option<ResState> {
    match st.diags {
        None => None,
        Some(ds) => Some(ResState { diags: Some(ds.push(d)), had_error: true, ..st }),
    }
}

/// Reports the error of `r`, if it is one.
pub open spec fn rs_report_err(st: ResState, r: Result<(), TolDiagnosticV>) -> Option<ResState> {
    match r {
        Ok(_) => Some(st),
        Err(d) => rs_report(st, d),
    }
}

/// The diagnostic for declaring `sym` again in a scope whose symbol `prev` has its name.
pub open spec fn redeclaration(prev: SymbolV, sym: SymbolV) -> TolDiagnosticV {
    TolDiagnosticV::Error(
        TolErrorV::NameRedeclaration {
            name: sym.name,
            declared_span: prev.declared_span,
            redeclared_span: sym.declared_span,
        },
    )
}

/// Declares `sym` in the innermost scope: a new symbol id, or an error where
/// the scope already binds its name. `None` where the lookup finds an id that
/// is not in the table, where no scope is open, or where the table is full.
pub open spec fn rs_declare(st: ResState, sym: SymbolV) -> Option<
    (ResState, Result<usize, TolDiagnosticV>),
> {
    match current_lookup(st.scopes, sym.name) {
        Some(id) => if id < st.symbols.len() {
            Some((st, Err(redeclaration(st.symbols[id as int], sym))))
        } else {
            None
        },
        None => if st.scopes.len() == 0 || st.symbols.len() >= usize::MAX {
            None
        } else {
            let id = st.symbols.len() as usize;
            Some(
                (
                    ResState {
                        symbols: st.symbols.push(sym),
                        scopes: spec_bind(st.scopes, sym.name, id),
                        ..st
                    },
                    Ok(id),
                ),
            )
        },
    }
}

/// The diagnostic for using `tok` as a name that no open scope binds.
pub open spec fn undeclared(tok: TokenV) -> TolDiagnosticV {
    TolDiagnosticV::Error(TolErrorV::UseOfUndeclaredName { name: tok.lexeme, span: tok.span })
}

/// The symbol that a name declaration declares.
pub open spec fn name_symbol(name: TokenV, is_mutable: bool, ty: Option<TolType>) -> SymbolV {
    SymbolV {
        name: name.lexeme,
        declared_span: name.span,
        kind: SymbolKindV::Name { is_mutable, declared_type: ty },
    }
}

/// The symbol that a parameter declares.
pub open spec fn param_symbol(p: ParamV) -> SymbolV {
    SymbolV {
        name: p.name.lexeme,
        declared_span: p.span,
        kind: SymbolKindV::Name { is_mutable: false, declared_type: Some(p.ty) },
    }
}

/// The symbol that a function declaration declares.
pub open spec fn function_symbol(
    name: TokenV,
    params: Seq<ParamV>,
    params_span: crate::prelude::Span,
    ret_ty: Option<TolType>,
) -> SymbolV {
    SymbolV {
        name: name.lexeme,
        declared_span: name.span,
        kind: SymbolKindV::Function {
            param_types: params.map_values(|p: ParamV| p.ty),
            params_span,
            return_type: match ret_ty {
                Some(t) => t,
                None => TolType::Wala,
            },
        },
    }
}

/// Declares the parameters one after the other, reporting each redeclaration.
pub open spec fn rs_params(st: ResState, ps: Seq<ParamV>) -> Option<ResState>
    decreases ps.len(),
{
    if ps.len() == 0 {
        Some(st)
    } else {
        match rs_declare(st, param_symbol(ps[0])) {
            None => None,
            Some((st1, r)) => {
                let st2 = match r {
                    Ok(_) => Some(st1),
                    Err(d) => rs_report(st1, d),
                };
                match st2 {
                    None => None,
                    Some(st3) => rs_params(st3, ps.subrange(1, ps.len() as int)),
                }
            },
        }
    }
}

/// Resolves the names in an expression; gives the new state, the expression
/// with its names bound to symbols, and the error that stopped it.
pub open spec fn spec_resolve_expr(st: ResState, e: ExprV) -> Option<
    (ResState, ExprV, Result<(), TolDiagnosticV>),
>
    decreases e,
{
    match e.kind {
        ExprKindV::Integer(_) => Some((st, e, Ok(()))),
        ExprKindV::Float(_) => Some((st, e, Ok(()))),
        ExprKindV::Identifier(tok) => match scopes_lookup(st.scopes, tok.lexeme) {
            Some(id) => Some((st, ExprV { symbol_id: Some(id), ..e }, Ok(()))),
            None => Some((st, e, Err(undeclared(tok)))),
        },
        ExprKindV::Binary { lhs, rhs, op } => match spec_resolve_expr(st, *lhs) {
            None => None,
            Some((st1, lhs2, r1)) => match rs_report_err(st1, r1) {
                None => None,
                Some(st2) => match spec_resolve_expr(st2, *rhs) {
                    None => None,
                    Some((st3, rhs2, r2)) => Some(
                        (
                            st3,
                            ExprV {
                                kind: ExprKindV::Binary {
                                    lhs: Box::new(lhs2),
                                    rhs: Box::new(rhs2),
                                    op,
                                },
                                ..e
                            },
                            r2,
                        ),
                    ),
                },
            },
        },
        ExprKindV::Block { statements } => match spec_resolve_block(st, statements) {
            None => None,
            Some((st1, ss)) => Some(
                (st1, ExprV { kind: ExprKindV::Block { statements: ss }, ..e }, Ok(())),
            ),
        },
    }
}

/// Resolves statements one after the other, reporting the error of each.
pub open spec fn spec_resolve_block(st: ResState, ss: Seq<StmtV>) -> Option<
    (ResState, Seq<StmtV>),
>
    decreases ss,
{
    if ss.len() == 0 {
        Some((st, Seq::empty()))
    } else {
        match spec_resolve_stmt(st, ss[0]) {
            None => None,
            Some((st1, s1, r)) => match rs_report_err(st1, r) {
                None => None,
                Some(st2) => match spec_resolve_block(st2, ss.subrange(1, ss.len() as int)) {
                    None => None,
                    Some((st3, rest)) => Some((st3, seq![s1] + rest)),
                },
            },
        }
    }
}

/// Resolves the names in a statement and declares what it declares.
pub open spec fn spec_resolve_stmt(st: ResState, s: StmtV) -> Option<
    (ResState, StmtV, Result<(), TolDiagnosticV>),
>
    decreases s,
{
    match s.kind {
        StmtKindV::NameDeclaration { is_mutable, name, ty, rhs } => match spec_resolve_expr(st, rhs) {
            None => None,
            Some((st1, rhs2, r)) => {
                let s2 = StmtV {
                    kind: StmtKindV::NameDeclaration { is_mutable, name, ty, rhs: rhs2 },
                    ..s
                };
                match r {
                    Err(d) => Some((st1, s2, Err(d))),
                    Ok(_) => match rs_declare(st1, name_symbol(name, is_mutable, ty)) {
                        None => None,
                        Some((st2, Err(d))) => Some((st2, s2, Err(d))),
                        Some((st2, Ok(id))) => Some((st2, StmtV { symbol_id: Some(id), ..s2 }, Ok(()))),
                    },
                }
            },
        },
        StmtKindV::FunctionDeclaration { name, params, params_span, ret_ty, block } => match rs_declare(
            st,
            function_symbol(name, params, params_span, ret_ty),
        ) {
            None => None,
            Some((st1, Err(d))) => Some((st1, s, Err(d))),
            Some((st1, Ok(id))) => {
                let st2 = ResState { scopes: st1.scopes.push(Seq::empty()), ..st1 };
                match rs_params(st2, params) {
                    None => None,
                    Some(st3) => {
                        let st4 = ResState { scopes: st3.scopes.push(Seq::empty()), ..st3 };
                        match spec_resolve_expr(st4, block) {
                            None => None,
                            Some((st5, block2, r)) => {
                                let s2 = StmtV {
                                    kind: StmtKindV::FunctionDeclaration {
                                        name,
                                        params,
                                        params_span,
                                        ret_ty,
                                        block: block2,
                                    },
                                    ..s
                                };
                                match r {
                                    Err(d) => Some((st5, s2, Err(d))),
                                    Ok(_) => Some(
                                        (
                                            ResState {
                                                scopes: spec_exit(spec_exit(st5.scopes)),
                                                ..st5
                                            },
                                            StmtV { symbol_id: Some(id), ..s2 },
                                            Ok(()),
                                        ),
                                    ),
                                }
                            },
                        }
                    },
                }
            },
        },
        StmtKindV::Expression { expr } => match spec_resolve_expr(st, expr) {
            None => None,
            Some((st1, e2, r)) => Some(
                (st1, StmtV { kind: StmtKindV::Expression { expr: e2 }, ..s }, r),
            ),
        },
    }
}

// ---------------------------------------------------------------------------
// The name resolver.
// ---------------------------------------------------------------------------

/// Binds every name used in a module to the symbol it refers to, and declares
/// the names that the module declares.
pub struct NameResolver<'sema> {
    pub analyzer_ctx: &'sema mut AnalyzerCtx,
    pub modul: &'sema mut Module,
    pub had_error: bool,
}

impl<'sema> NameResolver<'sema> {
    /// The state that the model of name resolution speaks of.
    pub open spec fn state(&self) -> ResState {
        ResState {
            scopes: (*self.analyzer_ctx)@,
            symbols: (*self.modul)@.symbols,
            diags: (*self.modul)@.diagnostics,
            had_error: self.had_error,
        }
    }

    pub fn new(analyzer_ctx: &'sema mut AnalyzerCtx, modul: &'sema mut Module) -> (r: Self)
        ensures
            *r.analyzer_ctx == *old(analyzer_ctx),
            *r.modul == *old(modul),
            *final(r.analyzer_ctx) == *final(analyzer_ctx),
            *final(r.modul) == *final(modul),
            !r.had_error,
    {
        Self { analyzer_ctx, modul, had_error: false }
    }

    /// Runs the resolver over the statements of the module; returns whether
    /// an error was reported.
    pub fn run(&mut self) -> (had_error: bool)
        requires
            spec_resolve_block(old(self).state(), (*old(self).modul)@.ast) is Some,
        ensures
            *final(final(self).analyzer_ctx) == *final(old(self).analyzer_ctx),
            *final(final(self).modul) == *final(old(self).modul),
            ({
                let (st, ss) = spec_resolve_block(old(self).state(), (*old(self).modul)@.ast).unwrap();
                &&& final(self).state() == st
                &&& (*final(self).modul)@.ast == ss
                &&& (*final(self).modul)@.source == (*old(self).modul)@.source
                &&& had_error == st.had_error
            }),
    {
        let mut ast = self.modul.take_ast();
        self.resolve_statements(&mut ast);
        self.modul.set_ast(ast);
        self.had_error
    }

    /// Resolves the statements one after the other, reporting the error of each.
    fn resolve_statements(&mut self, statements: &mut Vec<Stmt>)
        requires
            spec_resolve_block(old(self).state(), stmts_view(old(statements)@)) is Some,
        ensures
            *final(final(self).analyzer_ctx) == *final(old(self).analyzer_ctx),
            *final(final(self).modul) == *final(old(self).modul),
            (*final(self).modul)@.source == (*old(self).modul)@.source,
            (*final(self).modul)@.ast == (*old(self).modul)@.ast,
            spec_resolve_block(old(self).state(), stmts_view(old(statements)@)) == Some(
                (final(self).state(), stmts_view(final(statements)@)),
            ),
        decreases stmts_view(old(statements)@), 1int,
    {
        let ghost ss0 = stmts_view(statements@);
        let ghost st0 = self.state();
        let ghost total = spec_resolve_block(st0, ss0);
        let n = statements.len();
        let mut i: usize = 0;
        proof {
            lemma_stmts_view(statements@);
            assert(ss0.subrange(0, ss0.len() as int) =~= ss0);
            assert(ss0.take(0) =~= Seq::<StmtV>::empty());
        }
        while i < n
            invariant
                0 <= i <= n,
                statements@.len() == n,
                ss0.len() == n,
                ss0 == stmts_view(old(statements)@),
                *final(self.analyzer_ctx) == *final(old(self).analyzer_ctx),
                *final(self.modul) == *final(old(self).modul),
                (*self.modul)@.source == (*old(self).modul)@.source,
                (*self.modul)@.ast == (*old(self).modul)@.ast,
                total is Some,
                forall|k: int| i <= k < n ==> #[trigger] statements@[k]@ == ss0[k],
                ({
                    let done = stmts_view(statements@).take(i as int);
                    match spec_resolve_block(self.state(), ss0.subrange(i as int, n as int)) {
                        Some((stf, rest)) => total == Some((stf, done + rest)),
                        None => total is None,
                    }
                }),
            decreases n - i,
        {
            proof {
                lemma_stmts_view(statements@);
                assert(ss0.subrange(i as int, n as int)[0] == ss0[i as int]);
                assert(ss0.subrange(i as int, n as int).subrange(1, (n - i) as int) =~= ss0.subrange(
                    i + 1,
                    n as int,
                ));
            }
            let ghost before = statements@;
            proof {
                assert(decreases_to!(ss0 => ss0[i as int]));
                assert(decreases_to!(ss0 => statements@[i as int]@));
            }
            let r = self.resolve_statement(&mut statements[i]);
            if let Err(diag) = r {
                self.modul.add_diagnostic(diag);
                self.had_error = true;
            }
            proof {
                lemma_stmts_view(statements@);
                lemma_stmts_view(before);
                assert(stmts_view(statements@).take(i + 1) =~= stmts_view(before).take(i as int)
                    + seq![statements@[i as int]@]);
            }
            i = i + 1;
        }
        proof {
            lemma_stmts_view(statements@);
            assert(stmts_view(statements@).take(n as int) =~= stmts_view(statements@));
            assert(ss0.subrange(n as int, n as int) =~= Seq::<StmtV>::empty());
        }
    }

    fn resolve_statement(&mut self, statement: &mut Stmt) -> (res: TolResult<()>)
        requires
            spec_resolve_stmt(old(self).state(), old(statement)@) is Some,
        ensures
            *final(final(self).analyzer_ctx) == *final(old(self).analyzer_ctx),
            *final(final(self).modul) == *final(old(self).modul),
            (*final(self).modul)@.source == (*old(self).modul)@.source,
            (*final(self).modul)@.ast == (*old(self).modul)@.ast,
            spec_resolve_stmt(old(self).state(), old(statement)@) == Some(
                (final(self).state(), final(statement)@, err_view(res)),
            ),
        decreases old(statement)@, 2int,
    {
        match &statement.kind {
            StmtKind::NameDeclaration { .. } => self.resolve_name_declaration(statement),
            StmtKind::FunctionDeclaration { .. } => self.resolve_par(statement),
            StmtKind::Expression { .. } => {
                match &mut statement.kind {
                    StmtKind::Expression { expr } => self.resolve_expression(expr),
                    _ => Ok(()),
                }
            },
        }
    }

    fn resolve_expression(&mut self, expression: &mut Expr) -> (res: TolResult<()>)
        requires
            spec_resolve_expr(old(self).state(), old(expression)@) is Some,
        ensures
            *final(final(self).analyzer_ctx) == *final(old(self).analyzer_ctx),
            *final(final(self).modul) == *final(old(self).modul),
            (*final(self).modul)@.source == (*old(self).modul)@.source,
            (*final(self).modul)@.ast == (*old(self).modul)@.ast,
            spec_resolve_expr(old(self).state(), old(expression)@) == Some(
                (final(self).state(), final(expression)@, err_view(res)),
            ),
        decreases old(expression)@, 2int,
    {
        match &mut expression.kind {
            ExprKind::Integer(_) => Ok(()),
            ExprKind::Float(_) => Ok(()),
            ExprKind::Identifier(token) => {
                let found = self.analyzer_ctx.lookup_symbol(token.lexeme());
                match found {
                    Some(id) => {
                        expression.symbol_id = Some(id);
                        Ok(())
                    },
                    None => Err(
                        TolDiagnostic::new_error(
                            TolError::UseOfUndeclaredName {
                                name: token.lexeme().to_owned(),
                                span: copy_span(token.span()),
                            },
                        ),
                    ),
                }
            },
            ExprKind::Binary { lhs, rhs, op } => {
                if let Err(diag) = self.resolve_expression(lhs) {
                    self.modul.add_diagnostic(diag);
                    self.had_error = true;
                }
                self.resolve_expression(rhs)
            },
            ExprKind::Block { statements } => {
                self.resolve_statements(statements);
                Ok(())
            },
        }
    }

    fn resolve_par(&mut self, par: &mut Stmt) -> (res: TolResult<()>)
        requires
            old(par)@.kind is FunctionDeclaration,
            spec_resolve_stmt(old(self).state(), old(par)@) is Some,
        ensures
            *final(final(self).analyzer_ctx) == *final(old(self).analyzer_ctx),
            *final(final(self).modul) == *final(old(self).modul),
            (*final(self).modul)@.source == (*old(self).modul)@.source,
            (*final(self).modul)@.ast == (*old(self).modul)@.ast,
            spec_resolve_stmt(old(self).state(), old(par)@) == Some(
                (final(self).state(), final(par)@, err_view(res)),
            ),
        decreases old(par)@, 1int,
    {
        let id = match &mut par.kind {
            StmtKind::FunctionDeclaration { name, params, ret_ty, block } => {
                let mut param_types: Vec<TolType> = Vec::new();
                let mut k: usize = 0;
                while k < params.item.len()
                    invariant
                        k <= params.item@.len(),
                        param_types@ == params.item@.take(k as int).map_values(|p: Param| p.ty),
                    decreases params.item@.len() - k,
                {
                    param_types.push(*params.item[k].ty());
                    k = k + 1;
                    proof {
                        assert(params.item@.take(k as int).map_values(|p: Param| p.ty) =~= params.item@.take(
                            k - 1,
                        ).map_values(|p: Param| p.ty).push(params.item@[k - 1].ty));
                    }
                }
                proof {
                    assert(params.item@.take(k as int) =~= params.item@);
                    assert(params_view(params.item@).map_values(|p: ParamV| p.ty) =~= params.item@.map_values(
                        |p: Param| p.ty,
                    ));
                }
                let symbol = Symbol::new_function(
                    name.lexeme().to_owned(),
                    copy_span(name.span()),
                    param_types,
                    copy_span(params.span()),
                    match ret_ty {
                        Some(t) => *t,
                        None => TolType::Wala,
                    },
                );
                let id = self.declare_symbol(symbol)?;
                self.analyzer_ctx.enter_scope();
                self.declare_params(&params.item);
                self.analyzer_ctx.enter_scope();
                self.resolve_expression(block)?;
                self.analyzer_ctx.exit_scope();
                self.analyzer_ctx.exit_scope();
                id
            },
            _ => {
                return Ok(());
            },
        };
        par.symbol_id = Some(id);
        Ok(())
    }

    /// Declares the parameters one after the other, reporting each redeclaration.
    fn declare_params(&mut self, params: &Vec<Param>)
        requires
            rs_params(old(self).state(), params_view(params@)) is Some,
        ensures
            *final(final(self).analyzer_ctx) == *final(old(self).analyzer_ctx),
            *final(final(self).modul) == *final(old(self).modul),
            (*final(self).modul)@.source == (*old(self).modul)@.source,
            (*final(self).modul)@.ast == (*old(self).modul)@.ast,
            rs_params(old(self).state(), params_view(params@)) == Some(final(self).state()),
    {
        let ghost ps = params_view(params@);
        let ghost total = rs_params(self.state(), ps);
        let mut k: usize = 0;
        proof {
            assert(ps.subrange(0, ps.len() as int) =~= ps);
        }
        while k < params.len()
            invariant
                k <= params@.len(),
                ps == params_view(params@),
                *final(self.analyzer_ctx) == *final(old(self).analyzer_ctx),
                *final(self.modul) == *final(old(self).modul),
                (*self.modul)@.source == (*old(self).modul)@.source,
                (*self.modul)@.ast == (*old(self).modul)@.ast,
                total is Some,
                rs_params(self.state(), ps.subrange(k as int, ps.len() as int)) == total,
            decreases params@.len() - k,
        {
            let param = &params[k];
            let symbol = Symbol::new_name(
                param.name().lexeme().to_owned(),
                copy_span(param.span()),
                false,
                Some(*param.ty()),
            );
            proof {
                assert(ps.subrange(k as int, ps.len() as int)[0] == param@);
                assert(ps.subrange(k as int, ps.len() as int).subrange(1, ps.len() - k) =~= ps.subrange(
                    k + 1,
                    ps.len() as int,
                ));
            }
            if let Err(diag) = self.declare_symbol(symbol) {
                self.modul.add_diagnostic(diag);
                self.had_error = true;
            }
            k = k + 1;
        }
        proof {
            assert(ps.subrange(k as int, ps.len() as int) =~= Seq::<ParamV>::empty());
        }
    }

    fn resolve_name_declaration(&mut self, name_declaration: &mut Stmt) -> (res: TolResult<()>)
        requires
            old(name_declaration)@.kind is NameDeclaration,
            spec_resolve_stmt(old(self).state(), old(name_declaration)@) is Some,
        ensures
            *final(final(self).analyzer_ctx) == *final(old(self).analyzer_ctx),
            *final(final(self).modul) == *final(old(self).modul),
            (*final(self).modul)@.source == (*old(self).modul)@.source,
            (*final(self).modul)@.ast == (*old(self).modul)@.ast,
            spec_resolve_stmt(old(self).state(), old(name_declaration)@) == Some(
                (final(self).state(), final(name_declaration)@, err_view(res)),
            ),
        decreases old(name_declaration)@, 1int,
    {
        let id = match &mut name_declaration.kind {
            StmtKind::NameDeclaration { is_mutable, name, ty, rhs } => {
                self.resolve_expression(rhs)?;
                let symbol = Symbol::new_name(
                    name.lexeme().to_owned(),
                    copy_span(name.span()),
                    *is_mutable,
                    *ty,
                );
                self.declare_symbol(symbol)?
            },
            _ => {
                return Ok(());
            },
        };
        name_declaration.symbol_id = Some(id);
        Ok(())
    }

    fn declare_symbol(&mut self, symbol: Symbol) -> (res: TolResult<usize>)
        requires
            rs_declare(old(self).state(), symbol@) is Some,
        ensures
            *final(final(self).analyzer_ctx) == *final(old(self).analyzer_ctx),
            *final(final(self).modul) == *final(old(self).modul),
            (*final(self).modul)@.source == (*old(self).modul)@.source,
            (*final(self).modul)@.ast == (*old(self).modul)@.ast,
            rs_declare(old(self).state(), symbol@) == Some((final(self).state(), err_view(res))),
    {
        match self.analyzer_ctx.lookup_current_scope(symbol.name()) {
            Some(id) => {
                let declared_symbol = self.modul.get_symbol(id).unwrap();
                let declared_span = copy_span(declared_symbol.declared_span());
                Err(
                    TolDiagnostic::new_error(
                        TolError::NameRedeclaration {
                            name: symbol.name().to_owned(),
                            declared_span,
                            redeclared_span: copy_span(symbol.declared_span()),
                        },
                    ),
                )
            },
            None => {
                let name = symbol.name().to_owned();
                let id = self.modul.add_symbol(symbol);
                self.analyzer_ctx.add_symbol_id(name, id);
                Ok(id)
            },
        }
    }
}

} // verus!

verus! {

// ---------------------------------------------------------------------------
// Laws of name resolution.
// ---------------------------------------------------------------------------

/// Declaring a name that the innermost scope already binds is refused with a
/// diagnostic that points at the first declaration, and changes nothing;
/// declaring it first gives the next symbol id.
pub proof fn lemma_redeclaration(st: ResState, first: SymbolV, second: SymbolV)
    requires
        st.scopes.len() > 0,
        st.symbols.len() + 1 < usize::MAX,
        current_lookup(st.scopes, first.name) is None,
        second.name == first.name,
    ensures
        ({
            let (st1, r1) = rs_declare(st, first).unwrap();
            &&& r1 == Ok::<usize, TolDiagnosticV>(st.symbols.len() as usize)
            &&& st1.symbols == st.symbols.push(first)
            &&& rs_declare(st1, second) == Some((st1, Err::<usize, TolDiagnosticV>(redeclaration(first, second))))
        }),
{
    let (st1, r1) = rs_declare(st, first).unwrap();
    crate::sema::analyzer_ctx::lemma_lookup_after_bind(st.scopes, first.name, st.symbols.len() as usize);
    assert(st1.symbols[st.symbols.len() as int] == first);
}

/// A name declared by a statement is bound, in the statements after it, to
/// the symbol that the declaration added: `x = 1; x;` resolves the second
/// `x` to the symbol of the first.
pub proof fn lemma_use_after_declaration(st: ResState, s1: StmtV, s2: StmtV)
    requires
        st.scopes.len() > 0,
        st.symbols.len() + 1 < usize::MAX,
        s1.kind matches StmtKindV::NameDeclaration { name, rhs, .. } && current_lookup(
            st.scopes,
            name.lexeme,
        ) is None && rhs.kind is Integer,
        s2.kind matches StmtKindV::Expression { expr } && expr.kind matches ExprKindV::Identifier(
            tok,
        ) && tok.lexeme == s1.kind->NameDeclaration_name.lexeme,
    ensures
        ({
            let id = st.symbols.len() as usize;
            let (st2, ss) = spec_resolve_block(st, seq![s1, s2]).unwrap();
            &&& ss[0].symbol_id == Some(id)
            &&& ss[1].kind->Expression_expr.symbol_id == Some(id)
            &&& st2.symbols[id as int] == name_symbol(
                s1.kind->NameDeclaration_name,
                s1.kind->NameDeclaration_is_mutable,
                s1.kind->NameDeclaration_ty,
            )
            &&& st2.diags == st.diags
        }),
{
    let name = s1.kind->NameDeclaration_name;
    let id = st.symbols.len() as usize;
    let sym = name_symbol(name, s1.kind->NameDeclaration_is_mutable, s1.kind->NameDeclaration_ty);
    crate::sema::analyzer_ctx::lemma_lookup_after_bind(st.scopes, name.lexeme, id);
    let (st1, r1, ok1) = spec_resolve_stmt(st, s1).unwrap();
    assert(st1.scopes == spec_bind(st.scopes, name.lexeme, id));
    let ss = seq![s1, s2];
    assert(ss[0] == s1);
    assert(ss.subrange(1, 2) =~= seq![s2]);
    assert(seq![s2].subrange(1, 1) =~= Seq::<StmtV>::empty());
    let (st2, r2, ok2) = spec_resolve_stmt(st1, s2).unwrap();
    assert(seq![s2][0] == s2);
    assert(ok2 is Ok);
    assert(spec_resolve_block(st2, seq![s2].subrange(1, 1)) == Some((st2, Seq::<StmtV>::empty())));
    assert(spec_resolve_block(st1, seq![s2]) == Some((st2, seq![r2] + Seq::<StmtV>::empty())));
    assert(ok1 is Ok);
    assert(spec_resolve_block(st, ss) == Some((st2, seq![r1] + (seq![r2] + Seq::<StmtV>::empty()))));
}

} // verus!

verus! {

/// Number of diagnostics in the module's list.
pub open spec fn diag_count(st: ResState) -> nat {
    match st.diags {
        Some(d) => d.len(),
        None => 0,
    }
}

/// From `a` to `b`, diagnostics and symbols were only added, and an error is
/// recorded exactly when one was recorded before or a diagnostic was added.
pub open spec fn only_adds(a: ResState, b: ResState) -> bool {
    &&& diag_count(b) >= diag_count(a)
    &&& b.had_error == (a.had_error || diag_count(b) > diag_count(a))
    &&& a.symbols.len() <= b.symbols.len()
    &&& forall|i: int| 0 <= i < a.symbols.len() ==> #[trigger] b.symbols[i] == a.symbols[i]
}

proof fn lemma_declare_only_adds(st: ResState, sym: SymbolV)
    requires
        rs_declare(st, sym) is Some,
    ensures
        only_adds(st, rs_declare(st, sym).unwrap().0),
{
}

proof fn lemma_report_err_only_adds(st: ResState, r: Result<(), TolDiagnosticV>)
    requires
        rs_report_err(st, r) is Some,
    ensures
        only_adds(st, rs_report_err(st, r).unwrap()),
{
}

proof fn lemma_params_only_adds(st: ResState, ps: Seq<ParamV>)
    requires
        rs_params(st, ps) is Some,
    ensures
        only_adds(st, rs_params(st, ps).unwrap()),
    decreases ps.len(),
{
    if ps.len() > 0 {
        let (st1, r) = rs_declare(st, param_symbol(ps[0])).unwrap();
        let st3 = match r {
            Ok(_) => st1,
            Err(d) => rs_report(st1, d).unwrap(),
        };
        lemma_params_only_adds(st3, ps.subrange(1, ps.len() as int));
    }
}

proof fn lemma_expr_only_adds(st: ResState, e: ExprV)
    requires
        spec_resolve_expr(st, e) is Some,
    ensures
        only_adds(st, spec_resolve_expr(st, e).unwrap().0),
    decreases e,
{
    match e.kind {
        ExprKindV::Binary { lhs, rhs, .. } => {
            lemma_expr_only_adds(st, *lhs);
            let (st1, _, r1) = spec_resolve_expr(st, *lhs).unwrap();
            lemma_report_err_only_adds(st1, r1);
            let st2 = rs_report_err(st1, r1).unwrap();
            lemma_expr_only_adds(st2, *rhs);
        },
        ExprKindV::Block { statements } => {
            lemma_block_only_adds(st, statements);
        },
        _ => {},
    }
}

proof fn lemma_block_only_adds(st: ResState, ss: Seq<StmtV>)
    requires
        spec_resolve_block(st, ss) is Some,
    ensures
        only_adds(st, spec_resolve_block(st, ss).unwrap().0),
    decreases ss,
{
    if ss.len() > 0 {
        lemma_stmt_only_adds(st, ss[0]);
        let (st1, _, r) = spec_resolve_stmt(st, ss[0]).unwrap();
        lemma_report_err_only_adds(st1, r);
        let st2 = rs_report_err(st1, r).unwrap();
        lemma_block_only_adds(st2, ss.subrange(1, ss.len() as int));
    }
}

proof fn lemma_stmt_only_adds(st: ResState, s: StmtV)
    requires
        spec_resolve_stmt(st, s) is Some,
    ensures
        only_adds(st, spec_resolve_stmt(st, s).unwrap().0),
    decreases s,
{
    match s.kind {
        StmtKindV::NameDeclaration { is_mutable, name, ty, rhs } => {
            lemma_expr_only_adds(st, rhs);
            let (st1, _, r) = spec_resolve_expr(st, rhs).unwrap();
            if r is Ok {
                lemma_declare_only_adds(st1, name_symbol(name, is_mutable, ty));
            }
        },
        StmtKindV::FunctionDeclaration { name, params, params_span, ret_ty, block } => {
            let sym = function_symbol(name, params, params_span, ret_ty);
            lemma_declare_only_adds(st, sym);
            let (st1, r) = rs_declare(st, sym).unwrap();
            if r is Ok {
                let st2 = ResState { scopes: st1.scopes.push(Seq::empty()), ..st1 };
                lemma_params_only_adds(st2, params);
                let st3 = rs_params(st2, params).unwrap();
                let st4 = ResState { scopes: st3.scopes.push(Seq::empty()), ..st3 };
                lemma_expr_only_adds(st4, block);
            }
        },
        StmtKindV::Expression { expr } => {
            lemma_expr_only_adds(st, expr);
        },
    }
}

/// Resolving statements records an error exactly when it reports a
/// diagnostic: a resolver that starts without an error returns `true` from
/// `run` if and only if a diagnostic was added to the module. Symbols are
/// only added: each symbol keeps its id.
pub proof fn lemma_resolution_only_adds(st: ResState, ss: Seq<StmtV>)
    requires
        spec_resolve_block(st, ss) is Some,
    ensures
        ({
            let st2 = spec_resolve_block(st, ss).unwrap().0;
            &&& diag_count(st2) >= diag_count(st)
            &&& st2.had_error == (st.had_error || diag_count(st2) > diag_count(st))
            &&& st.symbols.len() <= st2.symbols.len()
            &&& forall|i: int| 0 <= i < st.symbols.len() ==> #[trigger] st2.symbols[i] == st.symbols[i]
        }),
{
    lemma_block_only_adds(st, ss);
}

} // verus!

verus! {

/// A name that is an expression on its own.
pub open spec fn name_expr(tok: TokenV, span: crate::prelude::Span) -> ExprV {
    ExprV { kind: ExprKindV::Identifier(tok), span, symbol_id: None }
}

/// An undeclared name on the left of a binary expression does not stop the
/// right operand from being resolved: the left name is reported, and the
/// right one is bound to its symbol when declared, or is the error given
/// back when not.
pub proof fn lemma_binary_resolves_both_sides(
    st: ResState,
    y: TokenV,
    ys: crate::prelude::Span,
    z: TokenV,
    zs: crate::prelude::Span,
    op: TokenV,
    span: crate::prelude::Span,
)
    requires
        st.diags is Some,
        scopes_lookup(st.scopes, y.lexeme) is None,
    ensures
        ({
            let e = ExprV {
                kind: ExprKindV::Binary {
                    lhs: Box::new(name_expr(y, ys)),
                    rhs: Box::new(name_expr(z, zs)),
                    op,
                },
                span,
                symbol_id: None,
            };
            let (st2, e2, r) = spec_resolve_expr(st, e).unwrap();
            &&& st2.diags == Some(st.diags.unwrap().push(undeclared(y)))
            &&& st2.had_error
            &&& match scopes_lookup(st.scopes, z.lexeme) {
                Some(id) => r is Ok && e2.kind->rhs.symbol_id == Some(id),
                None => r == Err::<(), TolDiagnosticV>(undeclared(z)),
            }
        }),
{
    let l = name_expr(y, ys);
    let rz = name_expr(z, zs);
    assert(spec_resolve_expr(st, l) == Some((st, l, Err::<(), TolDiagnosticV>(undeclared(y)))));
    let st1 = rs_report(st, undeclared(y)).unwrap();
    assert(rs_report_err(st, Err(undeclared(y))) == Some(st1));
    assert(st1.scopes == st.scopes);
    match scopes_lookup(st.scopes, z.lexeme) {
        Some(id) => {
            assert(spec_resolve_expr(st1, rz) == Some(
                (st1, ExprV { symbol_id: Some(id), ..rz }, Ok::<(), TolDiagnosticV>(())),
            ));
        },
        None => {
            assert(spec_resolve_expr(st1, rz) == Some((st1, rz, Err::<(), TolDiagnosticV>(undeclared(z)))));
        },
    }
}

/// In the statement `y + z;` with neither name declared, each name gets a
/// diagnostic of its own, in order.
pub proof fn lemma_each_undeclared_name_reported(
    st: ResState,
    y: TokenV,
    ys: crate::prelude::Span,
    z: TokenV,
    zs: crate::prelude::Span,
    op: TokenV,
    span: crate::prelude::Span,
    stmt_span: crate::prelude::Span,
)
    requires
        st.diags is Some,
        scopes_lookup(st.scopes, y.lexeme) is None,
        scopes_lookup(st.scopes, z.lexeme) is None,
    ensures
        ({
            let e = ExprV {
                kind: ExprKindV::Binary {
                    lhs: Box::new(name_expr(y, ys)),
                    rhs: Box::new(name_expr(z, zs)),
                    op,
                },
                span,
                symbol_id: None,
            };
            let s = StmtV { kind: StmtKindV::Expression { expr: e }, span: stmt_span, symbol_id: None };
            let st2 = spec_resolve_block(st, seq![s]).unwrap().0;
            st2.diags == Some(st.diags.unwrap() + seq![undeclared(y), undeclared(z)])
        }),
{
    let e = ExprV {
        kind: ExprKindV::Binary {
            lhs: Box::new(name_expr(y, ys)),
            rhs: Box::new(name_expr(z, zs)),
            op,
        },
        span,
        symbol_id: None,
    };
    let s = StmtV { kind: StmtKindV::Expression { expr: e }, span: stmt_span, symbol_id: None };
    lemma_binary_resolves_both_sides(st, y, ys, z, zs, op, span);
    let (st1, e2, r) = spec_resolve_expr(st, e).unwrap();
    assert(spec_resolve_stmt(st, s) == Some(
        (st1, StmtV { kind: StmtKindV::Expression { expr: e2 }, ..s }, r),
    ));
    let ss = seq![s];
    assert(ss[0] == s);
    assert(ss.subrange(1, 1) =~= Seq::<StmtV>::empty());
    assert(r == Err::<(), TolDiagnosticV>(undeclared(z)));
    let st2 = rs_report(st1, undeclared(z)).unwrap();
    assert(rs_report_err(st1, r) == Some(st2));
    assert(spec_resolve_block(st2, ss.subrange(1, 1)) == Some((st2, Seq::<StmtV>::empty())));
    assert(spec_resolve_block(st, ss).unwrap().0 == st2);
    assert(st.diags.unwrap().push(undeclared(y)).push(undeclared(z)) =~= st.diags.unwrap() + seq![
        undeclared(y),
        undeclared(z),
    ]);
}

} // verus!
