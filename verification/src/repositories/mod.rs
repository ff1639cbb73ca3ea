//! The stores behind the service, each an arena of rows with the queries and
//! updates that the service needs. Every update either takes effect whole or
//! leaves its store as it was.

use vstd::prelude::*;

use crate::models::version::DocumentVersion;

pub mod comments;
pub mod document_sets;
pub mod documents;
pub mod events;
pub mod files;
pub mod graph;
pub mod permission;
pub mod users;

verus! {

/// Why a store refused an operation.
#[derive(Debug)]
pub enum RepoError {
    /// The caller holds no role that permits the operation on this version.
    Forbidden,
    /// A document, version, parent or other record referred to does not exist.
    NotFound,
    /// The name is already used within the same document or set.
    UniqueConflict,
    /// The token presented is not the version's current one. Carries the
    /// version as it stands, so that the caller can decide anew.
    ConcurrencyConflict(DocumentVersion),
    /// The requested lifecycle transition is not legal from the version's state.
    TransitionRejected,
    /// The request itself is malformed, whatever the state of the store.
    InvalidRequest,
    /// The store could not carry the operation out.
    StoreFailure,
}

} // verus!
