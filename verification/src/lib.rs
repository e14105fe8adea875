//! Retrieval and assembly engine for paginated books: a bounded-concurrency
//! page-download coordinator, deterministic page file naming, and a recursive
//! table-of-contents-to-document-outline builder with page-shift correction.

pub mod batch;
pub mod book;
pub mod errors;
pub mod outline;
pub mod pages;
pub mod sanitize;
pub mod urlid;
