//! Versions of document sets, and the requests that make or change them.

use vstd::prelude::*;

use crate::ident::{Id, Timestamp};
use crate::models::version::{is_valid_version_name, is_version_name};

verus! {

/// One version of a document set: a named bundle of document versions, with
/// its place in the set's version graph.
#[derive(Debug)]
pub struct SetVersion {
    pub document_set_id: Id,
    pub set_version_id: Id,
    pub set_version_name: String,
    pub created_at: Timestamp,
    pub document_version_ids: Vec<(Id, Id)>,
    pub children: Vec<Id>,
    pub parents: Vec<Id>,
}

/// What a `SetVersion` holds, as plain mathematical values.
pub struct SetVersionView {
    pub document_set_id: Id,
    pub set_version_id: Id,
    pub set_version_name: Seq<char>,
    pub created_at: Timestamp,
    pub document_version_ids: Seq<(Id, Id)>,
    pub children: Seq<Id>,
    pub parents: Seq<Id>,
}

impl View for SetVersion {
    type V = SetVersionView;

    open spec fn view(&self) -> SetVersionView {
        SetVersionView {
            document_set_id: self.document_set_id,
            set_version_id: self.set_version_id,
            set_version_name: self.set_version_name@,
            created_at: self.created_at,
            document_version_ids: self.document_version_ids@,
            children: self.children@,
            parents: self.parents@,
        }
    }
}

/// The first version of a document set: its name and the document versions it bundles.
#[derive(Debug)]
pub struct CreateInitialSetVersion {
    pub set_version_name: String,
    pub document_version_ids: Vec<(Id, Id)>,
}

/// A version of a document set that derives from earlier versions of the set.
#[derive(Debug)]
pub struct CreateSetVersionWithParents {
    pub set_version_name: String,
    pub document_version_ids: Vec<(Id, Id)>,
    pub parents: Vec<Id>,
}

/// A document version to add to, or to take out of, a version of a document set.
#[derive(Debug, Clone, Copy, PartialEq, Eq, Structural)]
pub struct UpdateSetVersion {
    pub document_id: Id,
    pub version_id: Id,
}

impl CreateInitialSetVersion {
    /// A request is valid when its version name is.
    pub open spec fn valid(&self) -> bool {
        is_version_name(self.set_version_name@)
    }

    /// Decides whether the request is valid.
    pub fn validate(&self) -> (valid: bool)
        ensures
            valid == self.valid(),
    {
        is_valid_version_name(self.set_version_name.as_str())
    }
}

impl CreateSetVersionWithParents {
    /// A request is valid when its version name is and it names a parent.
    pub open spec fn valid(&self) -> bool {
        is_version_name(self.set_version_name@) && self.parents@.len() >= 1
    }

    /// Decides whether the request is valid.
    pub fn validate(&self) -> (valid: bool)
        ensures
            valid == self.valid(),
    {
        is_valid_version_name(self.set_version_name.as_str()) && self.parents.len() >= 1
    }
}

} // verus!
