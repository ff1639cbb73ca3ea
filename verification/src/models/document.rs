//! Documents, and the requests that make or rename them.

use vstd::prelude::*;

use crate::ident::Id;
use crate::models::version::{CreateInitialOrUpdateVersionRequest, DocumentVersion};

verus! {

/// A document: an identity and a display name that no other document has.
#[derive(Debug)]
pub struct Document {
    pub document_id: Id,
    pub document_name: String,
}

/// What a `Document` holds, as plain mathematical values.
pub struct DocumentView {
    pub document_id: Id,
    pub document_name: Seq<char>,
}

impl View for Document {
    type V = DocumentView;

    open spec fn view(&self) -> DocumentView {
        DocumentView { document_id: self.document_id, document_name: self.document_name@ }
    }
}

impl Document {
    /// A copy of the document.
    pub fn duplicate(&self) -> (copy: Document)
        ensures
            copy@ == self@,
    {
        Document { document_id: self.document_id, document_name: self.document_name.clone() }
    }
}

/// A new document together with its first version.
#[derive(Debug)]
pub struct DocumentWithInitialVersion {
    pub document: Document,
    pub initial_version: DocumentVersion,
}

/// A document to create, with its first version.
#[derive(Debug)]
pub struct CreateDocumentRequest {
    pub document_name: String,
    pub initial_version: CreateInitialOrUpdateVersionRequest,
}

impl CreateDocumentRequest {
    /// A request is valid when the first version's name is a version name.
    pub open spec fn valid(&self) -> bool {
        self.initial_version.valid()
    }

    /// Decides whether the request is valid.
    pub fn validate(&self) -> (valid: bool)
        ensures
            valid == self.valid(),
    {
        self.initial_version.validate()
    }
}

/// A new display name for a document.
#[derive(Debug)]
pub struct UpdateDocumentRequest {
    pub document_name: String,
}

} // verus!
