//! Creating documents.

use vstd::prelude::*;

use crate::ident::{current_time, fresh_id, Id, Timestamp};
use crate::models::document::{
    CreateDocumentRequest,
    DocumentWithInitialVersion,
    UpdateDocumentRequest,
};
use crate::repositories::documents::{DocumentsRepository, DocumentsState};
use crate::repositories::permission::{PermissionRepository, PermissionState};
use crate::repositories::RepoError;

verus! {

/// What a user's request to rename a document does: `Forbidden` for a user
/// that owns no version of the document; otherwise the store decides.
pub open spec fn handles_rename(
    documents: DocumentsState,
    documents_after: DocumentsState,
    roles: PermissionState,
    result: Result<bool, RepoError>,
    user_id: Id,
    document_id: Id,
    document_name: Seq<char>,
) -> bool {
    if !roles.owns_in_document(user_id, document_id) {
        result == Err::<bool, RepoError>(RepoError::Forbidden) && documents_after == documents
    } else {
        documents.renames(documents_after, result, document_id, document_name)
    }
}

/// Renames the document `document_id` on behalf of `user_id`.
pub fn update_document(
    documents: &mut DocumentsRepository,
    roles: &PermissionRepository,
    user_id: Id,
    document_id: Id,
    data: UpdateDocumentRequest,
) -> (result: Result<bool, RepoError>)
    requires
        old(documents)@.wf(),
    ensures
        final(documents)@.wf(),
        handles_rename(
            old(documents)@,
            final(documents)@,
            roles@,
            result,
            user_id,
            document_id,
            data.document_name@,
        ),
{
    if !roles.owns_in_document(user_id, document_id) {
        return Err(RepoError::Forbidden);
    }
    documents.update_document(document_id, data.document_name)
}

/// Creates the document `document_id` with its initial version `version_id`
/// for `user_id`, at the time `now`: the document, the version and the
/// user's ownership of it, or nothing.
pub fn create_document_with(
    documents: &mut DocumentsRepository,
    roles: &mut PermissionRepository,
    document_id: Id,
    version_id: Id,
    now: Timestamp,
    user_id: Id,
    data: CreateDocumentRequest,
) -> (result: Result<DocumentWithInitialVersion, RepoError>)
    requires
        old(documents)@.wf(),
        old(roles)@.wf(),
    ensures
        final(documents)@.wf(),
        final(roles)@.wf(),
        old(documents)@.creates_document(
            final(documents)@,
            old(roles)@,
            final(roles)@,
            result,
            user_id,
            document_id,
            version_id,
            now,
            data.document_name@,
            data.initial_version.version_name@,
            data.initial_version.content@,
        ),
{
    if !data.validate() {
        return Err(RepoError::InvalidRequest);
    }
    documents.create_document_with(
        roles,
        document_id,
        version_id,
        now,
        data.document_name,
        user_id,
        data.initial_version.version_name,
        data.initial_version.content,
    )
}

/// Creates a document with its initial version for `user_id`, under fresh
/// identifiers and at the current time.
pub fn create_document(
    documents: &mut DocumentsRepository,
    roles: &mut PermissionRepository,
    user_id: Id,
    data: CreateDocumentRequest,
) -> (result: Result<DocumentWithInitialVersion, RepoError>)
    requires
        old(documents)@.wf(),
        old(roles)@.wf(),
    ensures
        final(documents)@.wf(),
        final(roles)@.wf(),
        exists|document_id: Id, version_id: Id, now: Timestamp| #[trigger]
            old(documents)@.creates_document(
                final(documents)@,
                old(roles)@,
                final(roles)@,
                result,
                user_id,
                document_id,
                version_id,
                now,
                data.document_name@,
                data.initial_version.version_name@,
                data.initial_version.content@,
            ),
{
    let document_id = fresh_id();
    let version_id = fresh_id();
    let now = current_time();
    create_document_with(documents, roles, document_id, version_id, now, user_id, data)
}

} // verus!
