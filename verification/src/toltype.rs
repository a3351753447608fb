use vstd::prelude::*;

use crate::diagnostic::{err_view, error::TolError, TolDiagnostic, TolDiagnosticV, TolErrorV};
use crate::prelude::{Span, TolResult};
use crate::text::str_is;

verus! {

/// The types of the language.
#[derive(Clone, Copy, Debug, PartialEq, Eq, Structural)]
pub enum TolType {
    Numero,
    Lutang,
    Wala,
    DiAlam,
}

/// The name of a type as written in source code.
pub open spec fn spec_tol_str(ty: TolType) -> Seq<char> {
    match ty {
        TolType::Numero => seq!['n', 'u', 'm', 'e', 'r', 'o'],
        TolType::Lutang => seq!['l', 'u', 't', 'a', 'n', 'g'],
        TolType::Wala => seq!['w', 'a', 'l', 'a'],
        TolType::DiAlam => seq!['d', 'i', '_', 'a', 'l', 'a', 'm'],
    }
}

/// The type that a written type name denotes, where it denotes one; only
/// `numero` and `lutang` can be written.
pub open spec fn spec_type_named(name: Seq<char>) -> Option<TolType> {
    if name == spec_tol_str(TolType::Numero) {
        Some(TolType::Numero)
    } else if name == spec_tol_str(TolType::Lutang) {
        Some(TolType::Lutang)
    } else {
        None
    }
}

/// The result of reading a type annotation `value` written at `span`.
pub open spec fn spec_from_str(value: Seq<char>, span: Span) -> Result<TolType, TolDiagnosticV> {
    match spec_type_named(value) {
        Some(ty) => Ok(ty),
        None => Err(TolDiagnosticV::Error(TolErrorV::InvalidType { invalid_type: value, type_span: span })),
    }
}

impl TolType {
    pub fn from_str(value: &str, span: Span) -> (res: TolResult<Self>)
        ensures
            err_view(res) == spec_from_str(value@, span),
    {
        proof {
            reveal_strlit("numero");
            reveal_strlit("lutang");
            assert("numero"@ =~= spec_tol_str(TolType::Numero));
            assert("lutang"@ =~= spec_tol_str(TolType::Lutang));
        }
        let ty = if str_is(value, "numero") {
            TolType::Numero
        } else if str_is(value, "lutang") {
            TolType::Lutang
        } else {
            return Err(TolDiagnostic::new_error(TolError::InvalidType {
                invalid_type: value.to_owned(),
                type_span: span,
            }));
        };
        Ok(ty)
    }

    pub fn to_tol_str(&self) -> (s: String)
        ensures
            s@ == spec_tol_str(*self),
    {
        proof {
            reveal_strlit("numero");
            reveal_strlit("lutang");
            reveal_strlit("wala");
            reveal_strlit("di_alam");
            assert("numero"@ =~= spec_tol_str(TolType::Numero));
            assert("lutang"@ =~= spec_tol_str(TolType::Lutang));
            assert("wala"@ =~= spec_tol_str(TolType::Wala));
            assert("di_alam"@ =~= spec_tol_str(TolType::DiAlam));
        }
        match self {
            TolType::Numero => "numero".to_owned(),
            TolType::Lutang => "lutang".to_owned(),
            TolType::Wala => "wala".to_owned(),
            TolType::DiAlam => "di_alam".to_owned(),
        }
    }
}

} // verus!

verus! {

/// Reading back the name of a type that can be written gives the type; the
/// names of the other types are refused as invalid types.
pub proof fn lemma_type_name_round_trip(t: TolType, span: Span)
    ensures
        (t == TolType::Numero || t == TolType::Lutang) ==> spec_from_str(spec_tol_str(t), span)
            == Ok::<TolType, TolDiagnosticV>(t),
        (t == TolType::Wala || t == TolType::DiAlam) ==> spec_from_str(spec_tol_str(t), span)
            == Err::<TolType, TolDiagnosticV>(
            TolDiagnosticV::Error(TolErrorV::InvalidType { invalid_type: spec_tol_str(t), type_span: span }),
        ),
{
    assert(spec_tol_str(TolType::Numero) != spec_tol_str(TolType::Lutang)) by {
        assert(spec_tol_str(TolType::Numero)[0] != spec_tol_str(TolType::Lutang)[0]);
    }
    assert(spec_tol_str(TolType::Wala).len() != 6);
    assert(spec_tol_str(TolType::DiAlam).len() != 6);
}

} // verus!
