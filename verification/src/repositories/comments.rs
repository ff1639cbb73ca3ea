//! The comments made on document versions.

use vstd::prelude::*;

use crate::ident::{current_time, fresh_id, Id, Timestamp};
use crate::models::comment::{DocumentVersionComment, DocumentVersionCommentView};
use crate::repositories::permission::{PermissionRepository, PermissionState};
use crate::repositories::users::{UsersRepository, UsersState};
use crate::repositories::RepoError;

verus! {

/// A comment as stored.
#[derive(Debug)]
pub struct CommentRow {
    pub comment_id: Id,
    pub user_id: Id,
    pub document_id: Id,
    pub version_id: Id,
    pub content: String,
    pub created_at: Timestamp,
}

/// What a `CommentRow` holds, as plain mathematical values.
pub struct CommentRecord {
    pub comment_id: Id,
    pub user_id: Id,
    pub document_id: Id,
    pub version_id: Id,
    pub content: Seq<char>,
    pub created_at: Timestamp,
}

impl View for CommentRow {
    type V = CommentRecord;

    open spec fn view(&self) -> CommentRecord {
        CommentRecord {
            comment_id: self.comment_id,
            user_id: self.user_id,
            document_id: self.document_id,
            version_id: self.version_id,
            content: self.content@,
            created_at: self.created_at,
        }
    }
}

/// The comment as it is recorded.
pub open spec fn new_comment(
    comment_id: Id,
    now: Timestamp,
    user_id: Id,
    document_id: Id,
    version_id: Id,
    content: Seq<char>,
) -> CommentRecord {
    CommentRecord { comment_id, user_id, document_id, version_id, content, created_at: now }
}

/// The comment `comment` as shown, by the author named `username`.
pub open spec fn shown(comment: CommentRecord, username: Seq<char>) -> DocumentVersionCommentView {
    DocumentVersionCommentView {
        comment_id: comment.comment_id,
        user_id: comment.user_id,
        username,
        created_at: comment.created_at,
        content: comment.content,
    }
}

/// The comments among `comments` on version `version_id` of `document_id`
/// whose authors are registered, as shown, in the order in which they were made.
pub open spec fn comments_among(
    comments: Seq<CommentRecord>,
    users: UsersState,
    document_id: Id,
    version_id: Id,
) -> Seq<DocumentVersionCommentView>
    decreases comments.len(),
{
    if comments.len() == 0 {
        Seq::empty()
    } else {
        let earlier = comments_among(comments.drop_last(), users, document_id, version_id);
        let comment = comments.last();
        if comment.document_id == document_id && comment.version_id == version_id
            && users.has_user(comment.user_id) {
            earlier.push(shown(comment, users.users[users.user_row(comment.user_id)].username))
        } else {
            earlier
        }
    }
}

/// The rows of the comment store, oldest first.
pub struct CommentsState {
    pub comments: Seq<CommentRecord>,
}

impl CommentsState {
    /// Row `i` is the comment `comment_id`.
    pub open spec fn is_comment(self, i: int, comment_id: Id) -> bool {
        0 <= i < self.comments.len() && self.comments[i].comment_id == comment_id
    }

    /// The comment `comment_id` exists.
    pub open spec fn has_comment(self, comment_id: Id) -> bool {
        exists|i: int| self.is_comment(i, comment_id)
    }

    /// No two comments share an identifier.
    pub open spec fn wf(self) -> bool {
        forall|i: int, j: int|
            #![trigger self.comments[i], self.comments[j]]
            0 <= i < self.comments.len() && 0 <= j < self.comments.len()
                && self.comments[i].comment_id == self.comments[j].comment_id ==> i == j
    }

    /// The store with one more comment.
    pub open spec fn with_comment(self, comment: CommentRecord) -> CommentsState {
        CommentsState { comments: self.comments.push(comment) }
    }

    /// What making a comment does: it is recorded and returned as shown,
    /// unless its author is not registered, which is `NotFound`, or its
    /// identifier is in use, which is a failure of the store; neither changes
    /// anything.
    pub open spec fn comments_on(
        self,
        after: CommentsState,
        users: UsersState,
        result: Result<DocumentVersionComment, RepoError>,
        comment: CommentRecord,
    ) -> bool {
        if !users.has_user(comment.user_id) {
            result == Err::<DocumentVersionComment, RepoError>(RepoError::NotFound) && after
                == self
        } else if self.has_comment(comment.comment_id) {
            result == Err::<DocumentVersionComment, RepoError>(RepoError::StoreFailure) && after
                == self
        } else {
            &&& after == self.with_comment(comment)
            &&& result matches Ok(made)
            &&& made@ == shown(comment, users.users[users.user_row(comment.user_id)].username)
        }
    }

    /// What a user sees of the comments on a version: all of them where the
    /// user holds a role on the version, else none.
    pub open spec fn comments_for(
        self,
        roles: PermissionState,
        users: UsersState,
        user_id: Id,
        document_id: Id,
        version_id: Id,
    ) -> Seq<DocumentVersionCommentView> {
        if roles.has_any_role(user_id, document_id, version_id) {
            comments_among(self.comments, users, document_id, version_id)
        } else {
            Seq::empty()
        }
    }
}

/// The comment store.
pub struct CommentsRepository {
    comments: Vec<CommentRow>,
}

impl View for CommentsRepository {
    type V = CommentsState;

    closed spec fn view(&self) -> CommentsState {
        CommentsState { comments: self.comments@.map_values(|comment: CommentRow| comment@) }
    }
}

impl CommentsRepository {
    /// A store without comments.
    pub fn new() -> (repository: CommentsRepository)
        ensures
            repository@.comments.len() == 0,
            repository@.wf(),
    {
        CommentsRepository { comments: Vec::new() }
    }

    /// The row of the comment `comment_id`.
    fn find_comment(&self, comment_id: Id) -> (row: Option<usize>)
        ensures
            match row {
                Some(i) => self@.is_comment(i as int, comment_id),
                None => !self@.has_comment(comment_id),
            },
    {
        let mut i: usize = 0;
        while i < self.comments.len()
            invariant
                0 <= i <= self.comments.len(),
                forall|k: int| 0 <= k < i ==> !self@.is_comment(k, comment_id),
            decreases self.comments.len() - i,
        {
            if self.comments[i].comment_id == comment_id {
                return Some(i);
            }
            i += 1;
        }
        None
    }

    /// Records the comment `content` of `user_id` on version `version_id` of
    /// `document_id`, under the identifier `comment_id` and at the time `now`.
    pub fn create_comment_with(
        &mut self,
        users: &UsersRepository,
        comment_id: Id,
        now: Timestamp,
        user_id: Id,
        document_id: Id,
        version_id: Id,
        content: String,
    ) -> (result: Result<DocumentVersionComment, RepoError>)
        requires
            old(self)@.wf(),
            users@.wf(),
        ensures
            final(self)@.wf(),
            old(self)@.comments_on(
                final(self)@,
                users@,
                result,
                new_comment(comment_id, now, user_id, document_id, version_id, content@),
            ),
    {
        let author = match users.find_user(user_id) {
            Some(row) => {
                assert(users@.is_user(users@.user_row(user_id), user_id));
                users.public_user(row)
            },
            None => {
                return Err(RepoError::NotFound);
            },
        };
        if self.find_comment(comment_id).is_some() {
            return Err(RepoError::StoreFailure);
        }
        let row = CommentRow {
            comment_id,
            user_id,
            document_id,
            version_id,
            content: content.clone(),
            created_at: now,
        };
        self.comments.push(row);
        assert(self@.comments == old(self)@.comments.push(row@));
        assert forall|i: int, j: int|
            #![trigger self@.comments[i], self@.comments[j]]
            0 <= i < self@.comments.len() && 0 <= j < self@.comments.len()
                && self@.comments[i].comment_id == self@.comments[j].comment_id implies i
            == j by {
            if i < old(self)@.comments.len() {
                assert(!old(self)@.is_comment(i, comment_id));
            }
            if j < old(self)@.comments.len() {
                assert(!old(self)@.is_comment(j, comment_id));
            }
        }
        Ok(
            DocumentVersionComment {
                comment_id,
                user_id,
                username: author.username,
                created_at: now,
                content,
            },
        )
    }

    /// Records the comment `content` of `user_id` on version `version_id` of
    /// `document_id`, under a fresh identifier and at the current time.
    pub fn create_comment(
        &mut self,
        users: &UsersRepository,
        user_id: Id,
        document_id: Id,
        version_id: Id,
        content: String,
    ) -> (result: Result<DocumentVersionComment, RepoError>)
        requires
            old(self)@.wf(),
            users@.wf(),
        ensures
            final(self)@.wf(),
            exists|comment_id: Id, now: Timestamp|
                old(self)@.comments_on(
                    final(self)@,
                    users@,
                    result,
                    #[trigger] new_comment(
                        comment_id,
                        now,
                        user_id,
                        document_id,
                        version_id,
                        content@,
                    ),
                ),
    {
        let comment_id = fresh_id();
        let now = current_time();
        self.create_comment_with(users, comment_id, now, user_id, document_id, version_id, content)
    }

    /// The comments on version `version_id` of `document_id`, for a user that
    /// holds a role on it; for any other user, none.
    pub fn get_comments(
        &self,
        roles: &PermissionRepository,
        users: &UsersRepository,
        user_id: Id,
        document_id: Id,
        version_id: Id,
    ) -> (listed: Vec<DocumentVersionComment>)
        requires
            users@.wf(),
        ensures
            listed@.map_values(|comment: DocumentVersionComment| comment@) == self@.comments_for(
                roles@,
                users@,
                user_id,
                document_id,
                version_id,
            ),
    {
        let mut listed: Vec<DocumentVersionComment> = Vec::new();
        if !roles.has_any_role(user_id, document_id, version_id) {
            assert(listed@.map_values(|comment: DocumentVersionComment| comment@) == Seq::<
                DocumentVersionCommentView,
            >::empty());
            return listed;
        }
        let mut i: usize = 0;
        while i < self.comments.len()
            invariant
                0 <= i <= self.comments.len(),
                users@.wf(),
                listed@.map_values(|comment: DocumentVersionComment| comment@) == comments_among(
                    self@.comments.take(i as int),
                    users@,
                    document_id,
                    version_id,
                ),
            decreases self.comments.len() - i,
        {
            let row = &self.comments[i];
            assert(self@.comments.take(i + 1).drop_last() == self@.comments.take(i as int));
            let ghost before = listed@.map_values(|comment: DocumentVersionComment| comment@);
            if row.document_id == document_id && row.version_id == version_id {
                match users.find_user(row.user_id) {
                    Some(at) => {
                        assert(users@.is_user(users@.user_row(row.user_id), row.user_id));
                        let comment = DocumentVersionComment {
                            comment_id: row.comment_id,
                            user_id: row.user_id,
                            username: users.public_user(at).username,
                            created_at: row.created_at,
                            content: row.content.clone(),
                        };
                        listed.push(comment);
                        assert(listed@.map_values(|comment: DocumentVersionComment| comment@)
                            == before.push(comment@));
                    },
                    None => {},
                }
            }
            i += 1;
        }
        assert(self@.comments.take(i as int) == self@.comments);
        listed
    }
}

} // verus!
