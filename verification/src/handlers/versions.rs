//! Creating, reading and editing the versions of a document.

use vstd::prelude::*;

use crate::ident::{current_time, fresh_id, Id, Timestamp};
use crate::models::role::DocumentVersionRole;
use crate::models::version::{
    is_version_name,
    CreateVersionWithParentsRequest,
    DocumentVersion,
    UpdateVersion,
};
use crate::repositories::documents::{DocumentsRepository, DocumentsState};
use crate::repositories::permission::{PermissionRepository, PermissionState};
use crate::repositories::RepoError;

verus! {

/// `user_id` holds some role on every one of `versions` of `document_id`.
pub open spec fn sees_all(
    roles: PermissionState,
    user_id: Id,
    document_id: Id,
    versions: Seq<Id>,
) -> bool {
    forall|k: int|
        0 <= k < versions.len() ==> roles.has_any_role(user_id, document_id, #[trigger] versions[k])
}

/// `user_id` is an owner or an editor of that version.
pub open spec fn may_edit(
    roles: PermissionState,
    user_id: Id,
    document_id: Id,
    version_id: Id,
) -> bool {
    roles.has_role(user_id, document_id, version_id, DocumentVersionRole::Owner) || roles.has_role(
        user_id,
        document_id,
        version_id,
        DocumentVersionRole::Editor,
    )
}

/// What a user's request to create a version does.
///
/// A request without a version name or without a parent is invalid. A user
/// may derive a version only from versions that the user can see: a parent on
/// which the user holds no role makes the request `Forbidden`. Then the store
/// decides. Whatever is refused changes nothing.
pub open spec fn handles_version_creation(
    documents: DocumentsState,
    documents_after: DocumentsState,
    roles: PermissionState,
    roles_after: PermissionState,
    result: Result<DocumentVersion, RepoError>,
    user_id: Id,
    document_id: Id,
    version_id: Id,
    now: Timestamp,
    version_name: Seq<char>,
    content: Seq<char>,
    parents: Seq<Id>,
) -> bool {
    if !is_version_name(version_name) || parents.len() == 0 {
        result == Err::<DocumentVersion, RepoError>(RepoError::InvalidRequest) && documents_after
            == documents && roles_after == roles
    } else if !sees_all(roles, user_id, document_id, parents) {
        result == Err::<DocumentVersion, RepoError>(RepoError::Forbidden) && documents_after
            == documents && roles_after == roles
    } else {
        documents.creates_version(
            documents_after,
            roles,
            roles_after,
            result,
            user_id,
            document_id,
            version_id,
            now,
            version_name,
            content,
            parents,
        )
    }
}

/// What a user's request to replace a version's content does: `Forbidden`
/// for a user that is neither owner nor editor of the version; otherwise the
/// store decides, by token and state.
pub open spec fn handles_content_update(
    documents: DocumentsState,
    documents_after: DocumentsState,
    roles: PermissionState,
    result: Result<DocumentVersion, RepoError>,
    user_id: Id,
    document_id: Id,
    version_id: Id,
    content: Seq<char>,
    expected: Timestamp,
    now: Timestamp,
) -> bool {
    if !may_edit(roles, user_id, document_id, version_id) {
        result == Err::<DocumentVersion, RepoError>(RepoError::Forbidden) && documents_after
            == documents
    } else {
        documents.updates_content(
            documents_after,
            result,
            document_id,
            version_id,
            content,
            expected,
            now,
        )
    }
}

/// Whether `user_id` holds some role on every one of `versions` of `document_id`.
pub fn can_see_all(
    roles: &PermissionRepository,
    user_id: Id,
    document_id: Id,
    versions: &Vec<Id>,
) -> (all: bool)
    ensures
        all == sees_all(roles@, user_id, document_id, versions@),
{
    let mut k: usize = 0;
    while k < versions.len()
        invariant
            0 <= k <= versions.len(),
            forall|j: int|
                0 <= j < k ==> roles@.has_any_role(user_id, document_id, #[trigger] versions@[j]),
        decreases versions.len() - k,
    {
        if !roles.has_any_role(user_id, document_id, versions[k]) {
            return false;
        }
        k += 1;
    }
    true
}

/// Creates the version `version_id` of `document_id` for `user_id`, at the time `now`.
pub fn create_version_with(
    documents: &mut DocumentsRepository,
    roles: &mut PermissionRepository,
    version_id: Id,
    now: Timestamp,
    user_id: Id,
    document_id: Id,
    data: CreateVersionWithParentsRequest,
) -> (result: Result<DocumentVersion, RepoError>)
    requires
        old(documents)@.wf(),
        old(roles)@.wf(),
    ensures
        final(documents)@.wf(),
        final(roles)@.wf(),
        handles_version_creation(
            old(documents)@,
            final(documents)@,
            old(roles)@,
            final(roles)@,
            result,
            user_id,
            document_id,
            version_id,
            now,
            data.version_name@,
            data.content@,
            data.parents@,
        ),
{
    if !data.validate() {
        return Err(RepoError::InvalidRequest);
    }
    if !can_see_all(roles, user_id, document_id, &data.parents) {
        return Err(RepoError::Forbidden);
    }
    documents.create_version_with(
        roles,
        version_id,
        now,
        user_id,
        document_id,
        data.version_name,
        data.content,
        data.parents,
    )
}

/// Creates a version of `document_id` for `user_id`, under a fresh identifier
/// and at the current time.
pub fn create_version(
    documents: &mut DocumentsRepository,
    roles: &mut PermissionRepository,
    user_id: Id,
    document_id: Id,
    data: CreateVersionWithParentsRequest,
) -> (result: Result<DocumentVersion, RepoError>)
    requires
        old(documents)@.wf(),
        old(roles)@.wf(),
    ensures
        final(documents)@.wf(),
        final(roles)@.wf(),
        exists|version_id: Id, now: Timestamp| #[trigger]
            handles_version_creation(
                old(documents)@,
                final(documents)@,
                old(roles)@,
                final(roles)@,
                result,
                user_id,
                document_id,
                version_id,
                now,
                data.version_name@,
                data.content@,
                data.parents@,
            ),
{
    let version_id = fresh_id();
    let now = current_time();
    create_version_with(documents, roles, version_id, now, user_id, document_id, data)
}

/// Replaces the content of version `version_id` of `document_id` on behalf of
/// `user_id`, at the time `now`.
pub fn update_version_at(
    documents: &mut DocumentsRepository,
    roles: &PermissionRepository,
    user_id: Id,
    document_id: Id,
    version_id: Id,
    data: UpdateVersion,
    now: Timestamp,
) -> (result: Result<DocumentVersion, RepoError>)
    requires
        old(documents)@.wf(),
    ensures
        final(documents)@.wf(),
        handles_content_update(
            old(documents)@,
            final(documents)@,
            roles@,
            result,
            user_id,
            document_id,
            version_id,
            data.content@,
            data.updated_at,
            now,
        ),
        result matches Ok(updated) ==> updated.updated_at != data.updated_at,
{
    if !roles.has_role(user_id, document_id, version_id, DocumentVersionRole::Owner)
        && !roles.has_role(user_id, document_id, version_id, DocumentVersionRole::Editor) {
        return Err(RepoError::Forbidden);
    }
    documents.update_version_at(document_id, version_id, data.content, data.updated_at, now)
}

/// Replaces the content of version `version_id` of `document_id` on behalf of
/// `user_id`, at the current time.
pub fn update_version(
    documents: &mut DocumentsRepository,
    roles: &PermissionRepository,
    user_id: Id,
    document_id: Id,
    version_id: Id,
    data: UpdateVersion,
) -> (result: Result<DocumentVersion, RepoError>)
    requires
        old(documents)@.wf(),
    ensures
        final(documents)@.wf(),
        exists|now: Timestamp| #[trigger]
            handles_content_update(
                old(documents)@,
                final(documents)@,
                roles@,
                result,
                user_id,
                document_id,
                version_id,
                data.content@,
                data.updated_at,
                now,
            ),
        result matches Ok(updated) ==> updated.updated_at != data.updated_at,
{
    let now = current_time();
    update_version_at(documents, roles, user_id, document_id, version_id, data, now)
}

} // verus!
