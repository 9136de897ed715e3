use vstd::prelude::*;

verus! {

/// What went wrong inside the persistence layer.
///
/// `NotFound` means the requested code has no record. `StorageError` means the
/// store was reachable but the operation failed (for the in-memory store: an
/// increment on a missing record, or a visit counter that cannot grow any
/// further). `StorageUnavailable` means the store could not be reached at all;
/// an in-memory store is always reachable, so only substituted stores report
/// it.
#[derive(Debug, Clone, Copy, PartialEq, Eq)]
pub enum UrlErrorKind {
    NotFound,
    StorageError,
    StorageUnavailable,
}

/// Error surfaced by every repository and service operation that can fail.
#[derive(Debug, Clone, Copy, PartialEq, Eq)]
pub struct UrlError {
    pub kind: UrlErrorKind,
}

impl UrlError {
    pub fn not_found() -> (r: UrlError)
        ensures
            r.kind == UrlErrorKind::NotFound,
    {
        UrlError { kind: UrlErrorKind::NotFound }
    }

    pub fn storage_error() -> (r: UrlError)
        ensures
            r.kind == UrlErrorKind::StorageError,
    {
        UrlError { kind: UrlErrorKind::StorageError }
    }
}

} // verus!
