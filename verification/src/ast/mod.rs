use vstd::prelude::*;

use crate::prelude::Span;
use crate::token::{Token, TokenV};
use crate::toltype::TolType;

pub mod expr;
pub mod pretty_printer;
pub mod stmt;

verus! {

/// A value together with the span of source code that it came from.
#[derive(Debug)]
pub struct Spanned<T> {
    pub item: T,
    pub span: Span,
}

impl<T> Spanned<T> {
    pub fn new(item: T, span: Span) -> (s: Self)
        ensures
            s.item == item,
            s.span == span,
    {
        Spanned { item, span }
    }

    pub fn item(&self) -> (i: &T)
        ensures
            *i == self.item,
    {
        &self.item
    }

    pub fn span(&self) -> (s: &Span)
        ensures
            *s == self.span,
    {
        &self.span
    }
}

/// What a function parameter is.
pub struct ParamV {
    pub name: TokenV,
    pub ty: TolType,
    pub span: Span,
}

/// A parameter of a function declaration: its name and its type.
#[derive(Debug)]
pub struct Param {
    pub name: Token,
    pub ty: TolType,
    pub span: Span,
}

impl View for Param {
    type V = ParamV;

    open spec fn view(&self) -> ParamV {
        ParamV { name: self.name@, ty: self.ty, span: self.span }
    }
}

impl Param {
    pub fn new(name: Token, ty: TolType, span: Span) -> (p: Self)
        ensures
            p@ == (ParamV { name: name@, ty, span }),
    {
        Param { name, ty, span }
    }

    pub fn name(&self) -> (t: &Token)
        ensures
            t@ == self@.name,
    {
        &self.name
    }

    pub fn ty(&self) -> (t: &TolType)
        ensures
            *t == self@.ty,
    {
        &self.ty
    }

    pub fn span(&self) -> (s: &Span)
        ensures
            *s == self@.span,
    {
        &self.span
    }
}

/// The views of a sequence of parameters.
pub open spec fn params_view(ps: Seq<Param>) -> Seq<ParamV> {
    ps.map_values(|p: Param| p@)
}

} // verus!
