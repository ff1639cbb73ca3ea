//! Commenting on a version.

use vstd::prelude::*;

use crate::ident::{Id, Timestamp};
use crate::models::comment::{CreateDocumentVersionComment, DocumentVersionComment};
use crate::repositories::comments::{new_comment, CommentsRepository};
use crate::repositories::users::UsersRepository;
use crate::repositories::RepoError;

verus! {

/// Records the comment of `user_id` on version `version_id` of
/// `document_id`, under a fresh identifier and at the current time.
pub fn create_comment(
    comments: &mut CommentsRepository,
    users: &UsersRepository,
    user_id: Id,
    document_id: Id,
    version_id: Id,
    data: CreateDocumentVersionComment,
) -> (result: Result<DocumentVersionComment, RepoError>)
    requires
        old(comments)@.wf(),
        users@.wf(),
    ensures
        final(comments)@.wf(),
        exists|comment_id: Id, now: Timestamp|
            old(comments)@.comments_on(
                final(comments)@,
                users@,
                result,
                #[trigger] new_comment(
                    comment_id,
                    now,
                    user_id,
                    document_id,
                    version_id,
                    data.content@,
                ),
            ),
{
    comments.create_comment(users, user_id, document_id, version_id, data.content)
}

} // verus!
