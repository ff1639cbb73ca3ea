//! Document sets, and the request that makes one.

use vstd::prelude::*;

use crate::ident::Id;
use crate::models::set_version::{CreateInitialSetVersion, SetVersion};

verus! {

/// A document set: an identity and a display name that no other set has.
#[derive(Debug)]
pub struct DocumentSet {
    pub document_set_id: Id,
    pub document_set_name: String,
}

/// What a `DocumentSet` holds, as plain mathematical values.
pub struct DocumentSetView {
    pub document_set_id: Id,
    pub document_set_name: Seq<char>,
}

impl View for DocumentSet {
    type V = DocumentSetView;

    open spec fn view(&self) -> DocumentSetView {
        DocumentSetView {
            document_set_id: self.document_set_id,
            document_set_name: self.document_set_name@,
        }
    }
}

impl DocumentSet {
    /// A copy of the document set.
    pub fn duplicate(&self) -> (copy: DocumentSet)
        ensures
            copy@ == self@,
    {
        DocumentSet {
            document_set_id: self.document_set_id,
            document_set_name: self.document_set_name.clone(),
        }
    }
}

/// A new document set together with its first version.
#[derive(Debug)]
pub struct DocumentSetWithInitialVersion {
    pub document_set: DocumentSet,
    pub initial_version: SetVersion,
}

/// A document set to create, with its first version.
#[derive(Debug)]
pub struct CreateDocumentSet {
    pub document_set_name: String,
    pub initial_version: CreateInitialSetVersion,
}

impl CreateDocumentSet {
    /// A request is valid when its first version is.
    pub open spec fn valid(&self) -> bool {
        self.initial_version.valid()
    }

    /// Decides whether the request is valid.
    pub fn validate(&self) -> (valid: bool)
        ensures
            valid == self.valid(),
    {
        self.initial_version.validate()
    }
}

} // verus!
