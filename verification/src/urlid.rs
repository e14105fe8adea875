//! Extraction of a book identifier from a platform address.
//!
//! A book is addressed by a URL whose final path segment is its decimal
//! identifier; the segment is cut out by the `url` crate and the number is
//! read by this crate's verified decimal parser.

use vstd::prelude::*;

use crate::pages::all_digits;
use crate::pages::digits_value;
use crate::pages::parse_u64;

verus! {

/// The final path segment of the address `s`, or none when `s` is not a
/// valid URL or its path cannot be split into segments. URL parsing is a
/// pure function of the address string alone.
pub uninterp spec fn final_segment_of(s: Seq<char>) -> Option<Seq<char>>;

/// Relies on `url::Url::parse` and `url::Url::path_segments`: parsing either
/// fails or yields the URL's path segments in order, and both are pure
/// functions of the address string.
#[verifier::external_body]
fn url_final_segment(address: &str) -> (r: Option<String>)
    ensures
        (r is Some) == (final_segment_of(address@) is Some),
        r matches Some(t) ==> final_segment_of(address@) == Some(t@),
{
    match url::Url::parse(address) {
        Ok(u) => match u.path_segments() {
            Some(segments) => segments.last().map(|seg| seg.to_string()),
            None => None,
        },
        Err(_) => None,
    }
}

/// Reads the book identifier out of a book address: the decimal value of the
/// URL's final path segment. Returns none when the address is not a URL with
/// path segments, or when the final segment is not a number that fits.
pub fn book_id_from_url(address: &str) -> (r: Option<u64>)
    ensures
        r matches Some(id) ==> final_segment_of(address@) matches Some(seg) && seg.len() > 0
            && all_digits(seg) && digits_value(seg) == id as int,
        r is None ==> (final_segment_of(address@) matches Some(seg) ==> (seg.len() == 0
            || !all_digits(seg) || digits_value(seg) > u64::MAX)),
{
    match url_final_segment(address) {
        Some(seg) => parse_u64(seg.as_str()),
        None => None,
    }
}

} // verus!
