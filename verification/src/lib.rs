//! Keeps a local mirror of arXiv article sources in step with the remote
//! corpus.
//!
//! The library holds the decisions of the mirror, with contracts that Verus
//! proves:
//!
//! - `remote` finds the latest revision of an article by probing one
//!   revision after the other;
//! - `oai` harvests the identifiers that changed since a date from the
//!   paginated listing endpoint;
//! - `fetch` drives the download of a work-list in batches, with a retry
//!   budget for each identifier and a journal that makes a run resumable;
//! - `local` lists the identifiers of the corpus, filters a work-list
//!   against the journal and normalizes a downloaded payload into one
//!   canonical archive;
//! - `snapshot` picks the revised articles out of a metadata snapshot;
//! - `journal`, `batch`, `config` and `text` hold what these share.
//!
//! Requests, files and threads are left to the caller. The state of each
//! job names the next request; the caller makes it and hands the result
//! back. Three crates work inside the library, behind declarations that
//! Verus takes on trust: `regex` (in `pattern`), `libxml` (in `xml`) and
//! `chrono` (in `snapshot`).

use vstd::prelude::*;

pub mod batch;
pub mod config;
pub mod fetch;
pub mod journal;
pub mod local;
pub mod oai;
pub mod pattern;
pub mod remote;
pub mod snapshot;
pub mod text;
pub mod xml;

verus! {

/// Attempts that one request gets before it is given up: the budget of a
/// download, of the check of one revision and of one page of a listing.
pub const MAX_ATTEMPTS: u8 = 3;

/// The name under which every request is made.
pub const USER_AGENT: &'static str = "ar5iv (https://ar5iv.labs.arxiv.org)";

} // verus!
