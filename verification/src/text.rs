//! Small helpers on strings that the rest of the library shares.

use vstd::prelude::*;

verus! {

/// Compares two string slices with `str::eq`.
///
/// Trusted: the result is `true` exactly when both slices hold the same
/// sequence of characters.
#[verifier::external_body]
pub(crate) fn str_eq(a: &str, b: &str) -> (same: bool)
    ensures
        same == (a@ == b@),
{
    a == b
}

/// `prefix` followed by `value`, as an owned string.
pub(crate) fn prefixed(prefix: &str, value: &str) -> (out: String)
    ensures
        out@ == prefix@ + value@,
{
    let mut out = prefix.to_owned();
    out.append(value);
    out
}

/// A copy of an optional string.
pub(crate) fn copy_opt_string(value: &Option<String>) -> (out: Option<String>)
    ensures
        out == *value,
{
    match value {
        Some(s) => Some(s.clone()),
        None => None,
    }
}

} // verus!
