//! Error conditions surfaced by the assembly engine.

use vstd::prelude::*;

verus! {

/// What can go wrong while building a book's outline or interpreting the
/// source platform's metadata.
#[derive(Clone, Copy, Debug, PartialEq, Eq, Structural)]
pub enum EdukaError {
    /// The source metadata did not have the shape the engine relies on.
    UnexpectedResponse,
    /// A table-of-contents node has no direct page and no child to borrow one from.
    NoAnchor,
    /// A node resolved to a physical page that the assembled document does not have.
    PageOffsetMismatch,
}

impl EdukaError {
    /// A human-readable description; the library's types carry no `Display`.
    pub fn message(&self) -> (r: &'static str)
        ensures
            *self == EdukaError::UnexpectedResponse ==> r@ == "the data sent by the source does not match any known shape"@,
            *self == EdukaError::NoAnchor ==> r@ == "an outline node has neither a direct page nor a first child"@,
            *self == EdukaError::PageOffsetMismatch ==> r@ == "the page number reported for a chapter does not match the document"@,
    {
        match self {
            EdukaError::UnexpectedResponse => "the data sent by the source does not match any known shape",
            EdukaError::NoAnchor => "an outline node has neither a direct page nor a first child",
            EdukaError::PageOffsetMismatch => "the page number reported for a chapter does not match the document",
        }
    }
}

} // verus!
