//! Case transforms, taken from the standard library on trust.
//!
//! Unicode case mapping is far too large to restate, so the two transforms
//! are named rather than defined: `upper_of` and `lower_of` stand for
//! whatever `str::to_uppercase` and `str::to_lowercase` return, which is a
//! function of the characters alone. Contracts elsewhere speak of the
//! mirrors only through these names.

use vstd::prelude::*;

verus! {

/// The Unicode uppercase mapping of a character sequence: the result of
/// `str::to_uppercase` on it, under a name.
pub uninterp spec fn upper_of(text: Seq<char>) -> Seq<char>;

/// The Unicode lowercase mapping of a character sequence: the result of
/// `str::to_lowercase` on it, under a name.
pub uninterp spec fn lower_of(text: Seq<char>) -> Seq<char>;

/// Relies on str::to_uppercase: its result depends on the characters alone,
/// and is what `upper_of` names.
#[verifier::external_body]
pub(crate) fn to_upper_chars(text: &Vec<char>) -> (r: Vec<char>)
    ensures
        r@ == upper_of(text@),
{
    let s: String = text.iter().collect();
    s.to_uppercase().chars().collect()
}

/// Relies on str::to_lowercase: its result depends on the characters alone,
/// and is what `lower_of` names.
#[verifier::external_body]
pub(crate) fn to_lower_chars(text: &Vec<char>) -> (r: Vec<char>)
    ensures
        r@ == lower_of(text@),
{
    let s: String = text.iter().collect();
    s.to_lowercase().chars().collect()
}

} // verus!
