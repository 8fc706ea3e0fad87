//! The concrete things the fetch pipeline knows how to fetch: a product page,
//! and a walk over search result pages; and the check every fetched answer
//! passes when `--currency` asked for one.

pub mod product;
pub mod search;

use crate::error::IherbError;
use crate::text::{str_eq, string_from};
use vstd::prelude::*;

verus! {

/// An optional text as plain characters.
pub open spec fn text_view(t: Option<&str>) -> Option<Seq<char>> {
    match t {
        Some(s) => Some(s@),
        None => None,
    }
}

/// Whether an answer fails what `--currency` asked for: a currency was asked
/// for, the page named one, and it is another. A page that named none is
/// not a mismatch; its prices are reported as in an unknown currency.
pub open spec fn currency_mismatch(expected: Option<Seq<char>>, actual: Option<Seq<char>>) -> bool {
    match (expected, actual) {
        (Some(e), Some(a)) => e != a,
        _ => false,
    }
}

/// Compare the currency `--currency` asked for with the one the page named.
/// This never converts: a storefront that priced in another currency is a
/// `CurrencyMismatch` naming both, and `what` says which answer it was.
pub fn check_currency(expected: Option<&str>, actual: Option<&str>, what: &str) -> (r: Result<
    (),
    IherbError,
>)
    ensures
        r is Ok <==> !currency_mismatch(text_view(expected), text_view(actual)),
        r matches Err(e) ==> (e matches IherbError::CurrencyMismatch { expected: x, actual: y, what: w }
            && text_view(expected) == Some(x@) && text_view(actual) == Some(y@) && w@ == what@),
{
    match (expected, actual) {
        (Some(e), Some(a)) => if str_eq(e, a) {
            Ok(())
        } else {
            Err(
                IherbError::CurrencyMismatch {
                    expected: string_from(e),
                    actual: string_from(a),
                    what: string_from(what),
                },
            )
        },
        _ => Ok(()),
    }
}

} // verus!
