//! Decimal texts that `strict_num_extended` reads as constrained floating-point numbers. The
//! numbers themselves never enter the library: what is kept is whether, and why not, a text
//! is accepted.
use crate::text::{text_eq, trim, trimmed};
use strict_num_extended::{FinF64, NonNegativeF64, PositiveF64};
use vstd::prelude::*;

verus! {

/// Why the text of a positive number is refused (`PositiveF64::from_str`), as `{:?}` writes
/// the error; `None` when it is accepted.
pub uninterp spec fn positive_f64_error(s: Seq<char>) -> Option<Seq<char>>;

/// Why the text of a non-negative number is refused (`NonNegativeF64::from_str`).
pub uninterp spec fn non_negative_f64_error(s: Seq<char>) -> Option<Seq<char>>;

/// Why the text of a finite number is refused (`FinF64::from_str`).
pub uninterp spec fn fin_f64_error(s: Seq<char>) -> Option<Seq<char>>;

/// `strict_num_extended`'s `FromStr` for `PositiveF64`: the trimmed text read as `f64`, then
/// kept when finite and above zero. Returns the `{:?}` text of the error, if any. The one case
/// stated beyond the name is the empty text, refused as `Empty`.
#[verifier::external_body]
pub(crate) fn positive_f64_check(s: &str) -> (r: Option<String>)
    ensures
        r is None <==> positive_f64_error(s@) is None,
        r is Some ==> positive_f64_error(s@) == Some(r->0@),
        s@.len() == 0 ==> r is Some && r->0@ == "Empty"@,
{
    match s.parse::<PositiveF64>() {
        Ok(_) => None,
        Err(e) => Some(format!("{e:?}")),
    }
}

/// `strict_num_extended`'s `FromStr` for `NonNegativeF64` (finite and at least zero).
#[verifier::external_body]
pub(crate) fn non_negative_f64_check(s: &str) -> (r: Option<String>)
    ensures
        r is None <==> non_negative_f64_error(s@) is None,
        r is Some ==> non_negative_f64_error(s@) == Some(r->0@),
        s@.len() == 0 ==> r is Some && r->0@ == "Empty"@,
{
    match s.parse::<NonNegativeF64>() {
        Ok(_) => None,
        Err(e) => Some(format!("{e:?}")),
    }
}

/// `strict_num_extended`'s `FromStr` for `FinF64` (finite).
#[verifier::external_body]
pub(crate) fn fin_f64_check(s: &str) -> (r: Option<String>)
    ensures
        r is None <==> fin_f64_error(s@) is None,
        r is Some ==> fin_f64_error(s@) == Some(r->0@),
        s@.len() == 0 ==> r is Some && r->0@ == "Empty"@,
{
    match s.parse::<FinF64>() {
        Ok(_) => None,
        Err(e) => Some(format!("{e:?}")),
    }
}

/// The number of a text that `NonNegativeF64::from_str` accepts, cast to `u64` (rounded
/// toward zero, saturating at `u64::MAX`).
pub uninterp spec fn non_negative_f64_u64(s: Seq<char>) -> u64;

/// `strict_num_extended`'s `FromStr` for `NonNegativeF64`, then `get` of the number cast to
/// `u64`; `None` when the text is refused.
#[verifier::external_body]
pub(crate) fn non_negative_f64_to_u64(s: &str) -> (r: Option<u64>)
    ensures
        r is None <==> non_negative_f64_error(s@) is Some,
        r matches Some(v) ==> v == non_negative_f64_u64(s@),
{
    match s.parse::<NonNegativeF64>() {
        Ok(v) => Some(v.get() as u64),
        Err(_) => None,
    }
}

/// Whether the positive number of the text `a` is below that of `b` (both as
/// `PositiveF64::from_str` reads them).
pub uninterp spec fn positive_f64_lt(a: Seq<char>, b: Seq<char>) -> bool;

/// Reads two texts as `PositiveF64` and compares them with `<`; `false` when either is
/// refused.
#[verifier::external_body]
pub(crate) fn positive_f64_less(a: &str, b: &str) -> (r: bool)
    ensures
        r == positive_f64_lt(a@, b@),
{
    match (a.parse::<PositiveF64>(), b.parse::<PositiveF64>()) {
        (Ok(x), Ok(y)) => x < y,
        _ => false,
    }
}

/// Whether a text is a finite number in Rust's floating-point syntax with no white space
/// around it: `str::parse::<f64>` refuses white space at either end, and what `FinF64::new`
/// then accepts is what `FinF64::from_str` accepts of the trimmed text.
pub open spec fn finite_number_text(s: Seq<char>) -> bool {
    trimmed(s) == s && fin_f64_error(s) is None
}

/// Checks `finite_number_text`.
pub fn finite_number_ok(s: &str) -> (r: bool)
    ensures
        r == finite_number_text(s@),
{
    let t = trim(s);
    text_eq(t.as_str(), s) && fin_f64_check(s).is_none()
}

} // verus!
