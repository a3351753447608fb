use vstd::prelude::*;

use crate::prelude::Span;

pub mod error;

use error::TolError;

verus! {

/// What an error says, with its texts taken as character sequences.
pub enum TolErrorV {
    UnrecognizedCharacter { character: char, span: Span },
    UnexpectedToken { token: Seq<char>, expected: Seq<char>, span: Span },
    InvalidStartOfAnExpression { span: Span },
    InvalidType { invalid_type: Seq<char>, type_span: Span },
    NameRedeclaration { name: Seq<char>, declared_span: Span, redeclared_span: Span },
    UseOfUndeclaredName { name: Seq<char>, span: Span },
    UnableToInferType { span: Span },
    UnableToInferTypeUndeclared { span: Span },
    InvalidOperandTypes {
        lhs_ty_str: Seq<char>,
        rhs_ty_str: Seq<char>,
        operator: Seq<char>,
        lhs_span: Span,
        rhs_span: Span,
    },
    UnexpectedLValue { span: Span },
    InvalidAssignment { lhs_ty_str: Seq<char>, rhs_ty_str: Seq<char>, rhs_span: Span },
}

impl View for TolError {
    type V = TolErrorV;

    open spec fn view(&self) -> TolErrorV {
        match self {
            TolError::UnrecognizedCharacter { character, span } => TolErrorV::UnrecognizedCharacter {
                character: *character,
                span: *span,
            },
            TolError::UnexpectedToken { token, expected, span } => TolErrorV::UnexpectedToken {
                token: token@,
                expected: expected@,
                span: *span,
            },
            TolError::InvalidStartOfAnExpression { span } => TolErrorV::InvalidStartOfAnExpression {
                span: *span,
            },
            TolError::InvalidType { invalid_type, type_span } => TolErrorV::InvalidType {
                invalid_type: invalid_type@,
                type_span: *type_span,
            },
            TolError::NameRedeclaration { name, declared_span, redeclared_span } =>
                TolErrorV::NameRedeclaration {
                name: name@,
                declared_span: *declared_span,
                redeclared_span: *redeclared_span,
            },
            TolError::UseOfUndeclaredName { name, span } => TolErrorV::UseOfUndeclaredName {
                name: name@,
                span: *span,
            },
            TolError::UnableToInferType { span } => TolErrorV::UnableToInferType { span: *span },
            TolError::UnableToInferTypeUndeclared { span } => TolErrorV::UnableToInferTypeUndeclared {
                span: *span,
            },
            TolError::InvalidOperandTypes { lhs_ty_str, rhs_ty_str, operator, lhs_span, rhs_span } =>
                TolErrorV::InvalidOperandTypes {
                lhs_ty_str: lhs_ty_str@,
                rhs_ty_str: rhs_ty_str@,
                operator: operator@,
                lhs_span: *lhs_span,
                rhs_span: *rhs_span,
            },
            TolError::UnexpectedLValue { span } => TolErrorV::UnexpectedLValue { span: *span },
            TolError::InvalidAssignment { lhs_ty_str, rhs_ty_str, rhs_span } =>
                TolErrorV::InvalidAssignment {
                lhs_ty_str: lhs_ty_str@,
                rhs_ty_str: rhs_ty_str@,
                rhs_span: *rhs_span,
            },
        }
    }
}

/// A diagnostic, as the front end reports it.
pub enum TolDiagnosticV {
    Error(TolErrorV),
}

/// A diagnostic reported by the front end.
#[derive(Debug)]
pub enum TolDiagnostic {
    Error(TolError),
}

impl View for TolDiagnostic {
    type V = TolDiagnosticV;

    open spec fn view(&self) -> TolDiagnosticV {
        match self {
            TolDiagnostic::Error(e) => TolDiagnosticV::Error(e@),
        }
    }
}

impl TolDiagnostic {
    pub fn new_error(error: TolError) -> (d: Self)
        ensures
            d@ == TolDiagnosticV::Error(error@),
    {
        TolDiagnostic::Error(error)
    }
}

} // verus!

verus! {

/// A result whose diagnostic is taken by its view.
pub open spec fn err_view<T>(r: Result<T, TolDiagnostic>) -> Result<T, TolDiagnosticV> {
    match r {
        Ok(v) => Ok(v),
        Err(d) => Err(d@),
    }
}

} // verus!
