//! Comments on document versions.

use vstd::prelude::*;

use crate::ident::{Id, Timestamp};

verus! {

/// A comment to make on a version.
#[derive(Debug)]
pub struct CreateDocumentVersionComment {
    pub content: String,
}

/// A comment as shown: with the name of the user who made it.
#[derive(Debug)]
pub struct DocumentVersionComment {
    pub comment_id: Id,
    pub user_id: Id,
    pub username: String,
    pub created_at: Timestamp,
    pub content: String,
}

/// What a `DocumentVersionComment` holds, as plain mathematical values.
pub struct DocumentVersionCommentView {
    pub comment_id: Id,
    pub user_id: Id,
    pub username: Seq<char>,
    pub created_at: Timestamp,
    pub content: Seq<char>,
}

impl View for DocumentVersionComment {
    type V = DocumentVersionCommentView;

    open spec fn view(&self) -> DocumentVersionCommentView {
        DocumentVersionCommentView {
            comment_id: self.comment_id,
            user_id: self.user_id,
            username: self.username@,
            created_at: self.created_at,
            content: self.content@,
        }
    }
}

} // verus!
