use vstd::prelude::*;

use crate::prelude::Span;
use crate::toltype::TolType;

verus! {

/// What a symbol declares.
pub enum SymbolKindV {
    Name { is_mutable: bool, declared_type: Option<TolType> },
    Function { param_types: Seq<TolType>, params_span: Span, return_type: TolType },
}

/// A declared symbol: its name, where it was declared, and what it is.
pub struct SymbolV {
    pub name: Seq<char>,
    pub declared_span: Span,
    pub kind: SymbolKindV,
}

/// The kinds of declared symbols.
#[derive(Debug)]
pub enum SymbolKind {
    Name { is_mutable: bool, declared_type: Option<TolType> },
    Function { param_types: Vec<TolType>, params_span: Span, return_type: TolType },
}

/// An entry of the symbol table.
#[derive(Debug)]
pub struct Symbol {
    pub name: String,
    pub declared_span: Span,
    pub kind: SymbolKind,
}

impl View for SymbolKind {
    type V = SymbolKindV;

    open spec fn view(&self) -> SymbolKindV {
        match self {
            SymbolKind::Name { is_mutable, declared_type } => SymbolKindV::Name {
                is_mutable: *is_mutable,
                declared_type: *declared_type,
            },
            SymbolKind::Function { param_types, params_span, return_type } =>
                SymbolKindV::Function {
                param_types: param_types@,
                params_span: *params_span,
                return_type: *return_type,
            },
        }
    }
}

impl View for Symbol {
    type V = SymbolV;

    open spec fn view(&self) -> SymbolV {
        SymbolV { name: self.name@, declared_span: self.declared_span, kind: self.kind@ }
    }
}

/// The type recorded for a symbol: the declared type of a name, the return
/// type of a function.
pub open spec fn spec_symbol_ty(s: SymbolV) -> Option<TolType> {
    match s.kind {
        SymbolKindV::Name { declared_type, .. } => declared_type,
        SymbolKindV::Function { return_type, .. } => Some(return_type),
    }
}

/// A symbol whose recorded type is replaced by `ty`.
pub open spec fn spec_with_type(s: SymbolV, ty: TolType) -> SymbolV {
    match s.kind {
        SymbolKindV::Name { is_mutable, .. } => SymbolV {
            kind: SymbolKindV::Name { is_mutable, declared_type: Some(ty) },
            ..s
        },
        SymbolKindV::Function { param_types, params_span, .. } => SymbolV {
            kind: SymbolKindV::Function { param_types, params_span, return_type: ty },
            ..s
        },
    }
}

impl Symbol {
    pub fn new_name(
        name: String,
        declared_span: Span,
        is_mutable: bool,
        declared_type: Option<TolType>,
    ) -> (s: Self)
        ensures
            s@ == (SymbolV {
                name: name@,
                declared_span,
                kind: SymbolKindV::Name { is_mutable, declared_type },
            }),
    {
        Symbol { name, declared_span, kind: SymbolKind::Name { is_mutable, declared_type } }
    }

    pub fn new_function(
        name: String,
        declared_span: Span,
        param_types: Vec<TolType>,
        params_span: Span,
        return_type: TolType,
    ) -> (s: Self)
        ensures
            s@ == (SymbolV {
                name: name@,
                declared_span,
                kind: SymbolKindV::Function { param_types: param_types@, params_span, return_type },
            }),
    {
        Symbol {
            name,
            declared_span,
            kind: SymbolKind::Function { param_types, params_span, return_type },
        }
    }

    pub fn name(&self) -> (n: &str)
        ensures
            n@ == self@.name,
    {
        self.name.as_str()
    }

    pub fn declared_span(&self) -> (s: &Span)
        ensures
            *s == self@.declared_span,
    {
        &self.declared_span
    }

    pub fn kind(&self) -> (k: &SymbolKind)
        ensures
            k@ == self@.kind,
    {
        &self.kind
    }

    pub fn ty(&self) -> (t: Option<TolType>)
        ensures
            t == spec_symbol_ty(self@),
    {
        match &self.kind {
            SymbolKind::Name { declared_type, .. } => *declared_type,
            SymbolKind::Function { return_type, .. } => Some(*return_type),
        }
    }

    pub fn set_type(&mut self, ty: TolType)
        ensures
            final(self)@ == spec_with_type(old(self)@, ty),
    {
        match &mut self.kind {
            SymbolKind::Name { declared_type, .. } => {
                *declared_type = Some(ty);
            },
            SymbolKind::Function { return_type, .. } => {
                *return_type = ty;
            },
        }
    }
}

} // verus!

verus! {

/// After a type is recorded for a symbol, the symbol has that type, and its
/// name, span and kind of symbol stay as they were.
pub proof fn lemma_type_after_set(s: SymbolV, ty: TolType)
    ensures
        spec_symbol_ty(spec_with_type(s, ty)) == Some(ty),
        spec_with_type(s, ty).name == s.name,
        spec_with_type(s, ty).declared_span == s.declared_span,
        (spec_with_type(s, ty).kind is Name) == (s.kind is Name),
{
}

} // verus!
