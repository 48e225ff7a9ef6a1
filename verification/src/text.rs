//! Text primitives of the standard library that the tracker relies on and
//! cannot prove anything about: Unicode lower-casing, whitespace trimming and
//! appending a character to a `String`.

use vstd::prelude::*;

verus! {

/// The Unicode lower-case equivalent of `text`, as `str::to_lowercase`
/// computes it.
pub uninterp spec fn lowercase_of(text: Seq<char>) -> Seq<char>;

/// `text` without its leading and trailing whitespace, as `str::trim`
/// computes it.
pub uninterp spec fn trimmed(text: Seq<char>) -> Seq<char>;

/// Whether `c` is one of the ASCII capital letters.
pub open spec fn is_ascii_capital(c: char) -> bool {
    'A' <= c <= 'Z'
}

/// Calls `str::to_lowercase`. Trusted: the result is named `lowercase_of`,
/// and it holds no ASCII capital letter (each one has a lower-case
/// equivalent, and no character is lower-cased into a capital).
#[verifier::external_body]
pub(crate) fn to_lowercase(text: &str) -> (r: String)
    ensures
        r@ == lowercase_of(text@),
        forall|i: int| 0 <= i < r@.len() ==> !is_ascii_capital(#[trigger] r@[i]),
{
    text.to_lowercase()
}

/// Calls `str::trim`. Trusted: the result is named `trimmed`.
#[verifier::external_body]
pub(crate) fn trim(text: &str) -> (r: &str)
    ensures
        r@ == trimmed(text@),
{
    text.trim()
}

/// Calls `String::push`. Trusted: the character is appended at the end and
/// nothing else changes.
#[verifier::external_body]
pub(crate) fn push_char(text: &mut String, c: char)
    ensures
        final(text)@ == old(text)@.push(c),
{
    text.push(c)
}

/// Whether two texts hold the same characters.
pub fn same_text(a: &str, b: &str) -> (r: bool)
    ensures
        r == (a@ == b@),
{
    String::from_str(a) == String::from_str(b)
}

} // verus!
