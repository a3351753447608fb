use vstd::prelude::*;

use crate::diagnostic::TolDiagnostic;

verus! {

/// A half-open range of byte offsets into the source code.
pub type Span = std::ops::Range<usize>;

/// The result of a step of the front end that may report a diagnostic.
pub type TolResult<T> = Result<T, TolDiagnostic>;

/// A copy of a span, field by field.
pub fn copy_span(span: &Span) -> (res: Span)
    ensures
        res == *span,
{
    span.start..span.end
}

} // verus!
