use vstd::prelude::*;

use crate::prelude::Span;

verus! {

/// The errors that the front end reports.
#[derive(Debug)]
pub enum TolError {
    UnrecognizedCharacter { character: char, span: Span },
    UnexpectedToken { token: String, expected: String, span: Span },
    InvalidStartOfAnExpression { span: Span },
    InvalidType { invalid_type: String, type_span: Span },
    NameRedeclaration { name: String, declared_span: Span, redeclared_span: Span },
    UseOfUndeclaredName { name: String, span: Span },
    UnableToInferType { span: Span },
    UnableToInferTypeUndeclared { span: Span },
    InvalidOperandTypes {
        lhs_ty_str: String,
        rhs_ty_str: String,
        operator: String,
        lhs_span: Span,
        rhs_span: Span,
    },
    UnexpectedLValue { span: Span },
    InvalidAssignment { lhs_ty_str: String, rhs_ty_str: String, rhs_span: Span },
}

} // verus!
