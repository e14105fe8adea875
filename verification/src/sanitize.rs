//! Sanitization of outline titles to a portable character subset.
//!
//! Document-outline encodings reject many non-portable characters, so every
//! title is transliterated to plain ASCII before it is written into an
//! outline entry.

use vstd::prelude::*;

verus! {

/// The ASCII transliteration of `s`: a pure function of the characters of
/// `s` alone. What it maps each character to is not stated here; the
/// transliterator below is the one source of facts about it.
pub uninterp spec fn ascii_of(s: Seq<char>) -> Seq<char>;

/// True when every character of `s` is plain ASCII.
pub open spec fn ascii_only(s: Seq<char>) -> bool {
    forall|i: int| 0 <= i < s.len() ==> (#[trigger] s[i] as u32) < 128
}

/// Relies on `unidecode::unidecode`, which transliterates character by
/// character and documents these guarantees: the returned string is valid
/// ASCII, and every ASCII character is mapped to itself — so an all-ASCII
/// input comes back unchanged, and a result fed in again comes back as it is.
#[verifier::external_body]
fn transliterate(s: &str) -> (r: String)
    ensures
        r@ == ascii_of(s@),
        ascii_only(r@),
        ascii_only(s@) ==> r@ == s@,
        ascii_of(r@) == r@,
{
    unidecode::unidecode(s)
}

/// Maps a title to its portable, pure-ASCII form. Sanitization is
/// deterministic (the result is a function of the title's characters alone)
/// and idempotent: sanitizing a sanitized title returns it unchanged.
pub fn sanitize_title(title: &str) -> (r: String)
    ensures
        r@ == ascii_of(title@),
        ascii_only(r@),
        ascii_of(r@) == r@,
        ascii_only(title@) ==> r@ == title@,
{
    transliterate(title)
}

} // verus!
