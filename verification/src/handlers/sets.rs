//! Creating document sets and their versions, and changing what a version bundles.

use vstd::prelude::*;

use crate::ident::Id;
use crate::models::document_set::{CreateDocumentSet, DocumentSetWithInitialVersion};
use crate::models::set_version::{CreateSetVersionWithParents, SetVersion, UpdateSetVersion};
use crate::repositories::document_sets::{DocumentSetsRepository, SetElement};
use crate::repositories::documents::DocumentsRepository;
use crate::repositories::RepoError;

verus! {

/// Creates a document set with its first version, under fresh identifiers and
/// at the current time.
pub fn create_document_set(
    sets: &mut DocumentSetsRepository,
    documents: &DocumentsRepository,
    user_id: Id,
    data: CreateDocumentSet,
) -> (result: Result<DocumentSetWithInitialVersion, RepoError>)
    requires
        old(sets)@.wf(),
    ensures
        final(sets)@.wf(),
        exists|document_set_id: Id, set_version_id: Id, now: crate::ident::Timestamp| #[trigger]
            old(sets)@.creates_set(
                final(sets)@,
                documents@,
                result,
                document_set_id,
                set_version_id,
                now,
                data.document_set_name@,
                data.initial_version.set_version_name@,
                data.initial_version.document_version_ids@,
            ),
{
    sets.create_document_set(
        documents,
        user_id,
        data.document_set_name,
        data.initial_version.set_version_name,
        data.initial_version.document_version_ids,
    )
}

/// Creates a version of the document set `document_set_id`, under a fresh
/// identifier and at the current time.
pub fn create_document_set_version(
    sets: &mut DocumentSetsRepository,
    documents: &DocumentsRepository,
    user_id: Id,
    document_set_id: Id,
    data: CreateSetVersionWithParents,
) -> (result: Result<SetVersion, RepoError>)
    requires
        old(sets)@.wf(),
    ensures
        final(sets)@.wf(),
        exists|set_version_id: Id, now: crate::ident::Timestamp| #[trigger]
            old(sets)@.creates_version(
                final(sets)@,
                documents@,
                result,
                document_set_id,
                set_version_id,
                now,
                data.set_version_name@,
                data.document_version_ids@,
                data.parents@,
            ),
{
    sets.create_document_set_version(
        documents,
        user_id,
        document_set_id,
        data.set_version_name,
        data.document_version_ids,
        data.parents,
    )
}

/// Adds the document version that `data` names to what version
/// `set_version_id` of `document_set_id` bundles.
pub fn add_to_document_set_version(
    sets: &mut DocumentSetsRepository,
    documents: &DocumentsRepository,
    user_id: Id,
    document_set_id: Id,
    set_version_id: Id,
    data: UpdateSetVersion,
) -> (result: Result<bool, RepoError>)
    requires
        old(sets)@.wf(),
    ensures
        final(sets)@.wf(),
        old(sets)@.adds_element(
            final(sets)@,
            documents@,
            result,
            SetElement {
                document_set_id,
                set_version_id,
                document_id: data.document_id,
                version_id: data.version_id,
            },
        ),
{
    sets.add_to_document_set_version(
        documents,
        user_id,
        document_set_id,
        set_version_id,
        data.document_id,
        data.version_id,
    )
}

/// Takes the document version that `data` names out of what version
/// `set_version_id` of `document_set_id` bundles.
pub fn remove_from_document_set_version(
    sets: &mut DocumentSetsRepository,
    user_id: Id,
    document_set_id: Id,
    set_version_id: Id,
    data: UpdateSetVersion,
) -> (removed: bool)
    requires
        old(sets)@.wf(),
    ensures
        final(sets)@.wf(),
        old(sets)@.removes_element(
            final(sets)@,
            removed,
            SetElement {
                document_set_id,
                set_version_id,
                document_id: data.document_id,
                version_id: data.version_id,
            },
        ),
{
    sets.remove_from_document_set_version(
        user_id,
        document_set_id,
        set_version_id,
        data.document_id,
        data.version_id,
    )
}

} // verus!
