use vstd::prelude::*;

use std::sync::Arc;

use crate::ast::expr::stmts_view;
use crate::ast::pretty_printer::{printable_program, spec_pretty_program, ASTPrettyPrinter};
use crate::ast::stmt::{Stmt, StmtV};
use crate::diagnostic::{TolDiagnostic, TolDiagnosticV};
use crate::symbol::{spec_with_type, Symbol, SymbolV};
use crate::toltype::TolType;

verus! {

/// What a module holds: its source, the diagnostics reported so far (once
/// the list was set up), its statements and its symbol table.
pub struct ModuleV {
    pub source: Seq<char>,
    pub diagnostics: Option<Seq<TolDiagnosticV>>,
    pub ast: Seq<StmtV>,
    pub symbols: Seq<SymbolV>,
}

pub open spec fn diags_view(v: Seq<TolDiagnostic>) -> Seq<TolDiagnosticV> {
    v.map_values(|d: TolDiagnostic| d@)
}

pub open spec fn symbols_view(v: Seq<Symbol>) -> Seq<SymbolV> {
    v.map_values(|s: Symbol| s@)
}

/// A source file on its way through the front end.
pub struct Module {
    source_code: String,
    diagnostics: Option<Vec<TolDiagnostic>>,
    ast: Vec<Stmt>,
    symbol_table: Vec<Symbol>,
}

impl View for Module {
    type V = ModuleV;

    closed spec fn view(&self) -> ModuleV {
        ModuleV {
            source: self.source_code@,
            diagnostics: match self.diagnostics {
                Some(d) => Some(diags_view(d@)),
                None => None,
            },
            ast: stmts_view(self.ast@),
            symbols: symbols_view(self.symbol_table@),
        }
    }
}

/// The module with one more diagnostic at the end of its list.
pub open spec fn spec_add_diagnostic(m: ModuleV, d: TolDiagnosticV) -> ModuleV {
    ModuleV { diagnostics: Some(m.diagnostics.unwrap().push(d)), ..m }
}

impl Module {
    pub fn new(source_code: String) -> (m: Self)
        ensures
            m@ == (ModuleV {
                source: source_code@,
                diagnostics: None,
                ast: Seq::empty(),
                symbols: Seq::empty(),
            }),
    {
        let m = Self { source_code, diagnostics: None, ast: Vec::new(), symbol_table: Vec::new() };
        proof {
            assert(stmts_view(m.ast@) =~= Seq::empty());
            assert(symbols_view(m.symbol_table@) =~= Seq::empty());
        }
        m
    }

    pub fn set_diagnostics(&mut self, diagnostics: Vec<TolDiagnostic>)
        ensures
            final(self)@ == (ModuleV { diagnostics: Some(diags_view(diagnostics@)), ..old(self)@ }),
    {
        self.diagnostics = Some(diagnostics)
    }

    pub fn add_diagnostic(&mut self, diagnostic: TolDiagnostic)
        requires
            old(self)@.diagnostics is Some,
        ensures
            final(self)@ == spec_add_diagnostic(old(self)@, diagnostic@),
    {
        let ghost d = diagnostic@;
        match &mut self.diagnostics {
            Some(v) => {
                v.push(diagnostic);
            },
            None => {},
        }
        proof {
            let v = self.diagnostics.unwrap();
            assert(diags_view(v@) =~= old(self)@.diagnostics.unwrap().push(d));
        }
    }

    /// Hands over the diagnostics reported so far and leaves the list empty.
    pub fn take_diagnostics(&mut self) -> (ds: Vec<TolDiagnostic>)
        requires
            old(self)@.diagnostics is Some,
        ensures
            diags_view(ds@) == old(self)@.diagnostics.unwrap(),
            final(self)@ == (ModuleV { diagnostics: Some(Seq::empty()), ..old(self)@ }),
    {
        let mut taken: Vec<TolDiagnostic> = Vec::new();
        match &mut self.diagnostics {
            Some(v) => {
                std::mem::swap(v, &mut taken);
            },
            None => {},
        }
        proof {
            assert(diags_view(self.diagnostics.unwrap()@) =~= Seq::empty());
        }
        taken
    }

    pub fn add_statement(&mut self, statement: Stmt)
        ensures
            final(self)@ == (ModuleV { ast: old(self)@.ast.push(statement@), ..old(self)@ }),
    {
        let ghost old_ast = self.ast@;
        self.ast.push(statement);
        proof {
            assert(self.ast@.drop_last() =~= old_ast);
        }
    }

    /// The printout of the module's statements, indented by four spaces per level.
    pub fn display_ast(&self) -> (out: String)
        requires
            printable_program(self@.ast, 0, 4),
        ensures
            out@ == spec_pretty_program(self@.ast, 0, 4),
    {
        let mut pretty_printer = ASTPrettyPrinter::new(self.ast.as_slice(), 4);
        pretty_printer.run()
    }

    pub fn source_code(&self) -> (s: &str)
        ensures
            s@ == self@.source,
    {
        self.source_code.as_str()
    }

    pub fn source_code_arc(&self) -> (s: Arc<String>)
        ensures
            s@ == self@.source,
    {
        Arc::new(self.source_code.clone())
    }

    pub fn add_symbol(&mut self, symbol: Symbol) -> (id: usize)
        requires
            old(self)@.symbols.len() < usize::MAX,
        ensures
            id == old(self)@.symbols.len(),
            final(self)@ == (ModuleV { symbols: old(self)@.symbols.push(symbol@), ..old(self)@ }),
    {
        let ghost s = symbol@;
        self.symbol_table.push(symbol);
        proof {
            assert(symbols_view(self.symbol_table@) =~= old(self)@.symbols.push(s));
        }
        self.symbol_table.len() - 1
    }

    pub fn get_symbol(&mut self, id: usize) -> (s: Option<&Symbol>)
        ensures
            *final(self) == *old(self),
            match s {
                Some(sym) => id < old(self)@.symbols.len() && sym@ == old(self)@.symbols[id as int],
                None => id >= old(self)@.symbols.len(),
            },
    {
        self.symbol_table.get(id)
    }

    /// Records `ty` as the type of the symbol `id`.
    pub fn set_symbol_type(&mut self, id: usize, ty: TolType)
        requires
            id < old(self)@.symbols.len(),
        ensures
            final(self)@ == (ModuleV {
                symbols: old(self)@.symbols.update(id as int, spec_with_type(old(self)@.symbols[id as int], ty)),
                ..old(self)@
            }),
    {
        let mut sym = self.symbol_table.remove(id);
        sym.set_type(ty);
        self.symbol_table.insert(id, sym);
        proof {
            assert(symbols_view(self.symbol_table@) =~= old(self)@.symbols.update(
                id as int,
                spec_with_type(old(self)@.symbols[id as int], ty),
            ));
        }
    }

    pub fn ast(&self) -> (a: &[Stmt])
        ensures
            stmts_view(a@) == self@.ast,
    {
        self.ast.as_slice()
    }

    pub fn take_ast(&mut self) -> (a: Vec<Stmt>)
        ensures
            stmts_view(a@) == old(self)@.ast,
            final(self)@ == (ModuleV { ast: Seq::empty(), ..old(self)@ }),
    {
        let mut taken: Vec<Stmt> = Vec::new();
        std::mem::swap(&mut self.ast, &mut taken);
        proof {
            assert(stmts_view(self.ast@) =~= Seq::empty());
        }
        taken
    }

    pub fn set_ast(&mut self, ast: Vec<Stmt>)
        ensures
            final(self)@ == (ModuleV { ast: stmts_view(ast@), ..old(self)@ }),
    {
        self.ast = ast;
    }
}

} // verus!

verus! {

/// A symbol added to the table is found again under the id that adding it
/// gave, and the symbols added before keep their ids.
pub proof fn lemma_symbol_read_after_add(m: ModuleV, s: SymbolV)
    ensures
        ({
            let m2 = ModuleV { symbols: m.symbols.push(s), ..m };
            let id = m.symbols.len() as int;
            &&& m2.symbols[id] == s
            &&& forall|k: int| 0 <= k < id ==> m2.symbols[k] == m.symbols[k]
        }),
{
}

/// Putting back the statements that were taken out restores the module.
pub proof fn lemma_take_then_set_ast(m: ModuleV)
    ensures
        (ModuleV { ast: m.ast, ..ModuleV { ast: Seq::empty(), ..m } }) == m,
{
}

/// Diagnostics are kept in the order in which they were reported.
pub proof fn lemma_diagnostics_in_order(m: ModuleV, d1: TolDiagnosticV, d2: TolDiagnosticV)
    requires
        m.diagnostics is Some,
    ensures
        spec_add_diagnostic(spec_add_diagnostic(m, d1), d2).diagnostics == Some(
            m.diagnostics.unwrap() + seq![d1, d2],
        ),
{
    assert(m.diagnostics.unwrap().push(d1).push(d2) =~= m.diagnostics.unwrap() + seq![d1, d2]);
}

} // verus!
