use vstd::prelude::*;

use crate::module::Module;

pub mod analyzer_ctx;
pub mod name_resolver;
pub mod type_checker;

use analyzer_ctx::AnalyzerCtx;
use name_resolver::{spec_resolve_block, NameResolver, ResState};

verus! {

/// The semantic passes over a module; at present, name resolution.
pub struct SemanticAnalyzer<'m> {
    pub analyzer_ctx: AnalyzerCtx,
    pub modul: &'m mut Module,
}

impl<'m> SemanticAnalyzer<'m> {
    /// The state that name resolution starts from.
    pub open spec fn start_state(&self) -> ResState {
        ResState {
            scopes: self.analyzer_ctx@,
            symbols: (*self.modul)@.symbols,
            diags: (*self.modul)@.diagnostics,
            had_error: false,
        }
    }

    pub fn new(modul: &'m mut Module) -> (a: Self)
        ensures
            a.analyzer_ctx@ == seq![Seq::<(Seq<char>, usize)>::empty()],
            *a.modul == *old(modul),
            *final(a.modul) == *final(modul),
    {
        Self { analyzer_ctx: AnalyzerCtx::new(), modul }
    }

    pub fn run(&mut self)
        requires
            spec_resolve_block(old(self).start_state(), (*old(self).modul)@.ast) is Some,
        ensures
            *final(final(self).modul) == *final(old(self).modul),
            ({
                let (st, ss) = spec_resolve_block(old(self).start_state(), (*old(self).modul)@.ast).unwrap();
                &&& final(self).analyzer_ctx@ == st.scopes
                &&& (*final(self).modul)@.symbols == st.symbols
                &&& (*final(self).modul)@.diagnostics == st.diags
                &&& (*final(self).modul)@.ast == ss
                &&& (*final(self).modul)@.source == (*old(self).modul)@.source
            }),
    {
        self.resolve_names();
    }

    fn resolve_names(&mut self)
        requires
            spec_resolve_block(old(self).start_state(), (*old(self).modul)@.ast) is Some,
        ensures
            *final(final(self).modul) == *final(old(self).modul),
            ({
                let (st, ss) = spec_resolve_block(old(self).start_state(), (*old(self).modul)@.ast).unwrap();
                &&& final(self).analyzer_ctx@ == st.scopes
                &&& (*final(self).modul)@.symbols == st.symbols
                &&& (*final(self).modul)@.diagnostics == st.diags
                &&& (*final(self).modul)@.ast == ss
                &&& (*final(self).modul)@.source == (*old(self).modul)@.source
            }),
    {
        let mut resolver = NameResolver::new(&mut self.analyzer_ctx, self.modul);
        resolver.run();
    }
}

} // verus!
