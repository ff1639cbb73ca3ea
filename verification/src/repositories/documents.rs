//! The version graph store: documents, their versions, and the edges from each
//! version to the versions it derives from.
//!
//! Edges are only ever added together with their child, and point at versions
//! that already exist, so the graph of a document stays acyclic. Versions
//! change under optimistic concurrency control: a writer presents the
//! `updated_at` it last read, and the store applies the change only if that is
//! still the version's token.

use vstd::prelude::*;

use crate::ident::{Id, Timestamp};
use crate::ident::{current_time, fresh_id};
use crate::models::document::{Document, DocumentView, DocumentWithInitialVersion};
use crate::models::role::DocumentVersionRole;
use crate::models::version::{is_valid_version_name, is_version_name, DocumentVersion, DocumentVersionView};
use crate::models::version_state::DocumentVersionState;
use crate::models::attachment::File;
use crate::repositories::files::{Attachment, FilesRepository};
use crate::repositories::graph::{
    children_among,
    edges_to,
    parents_among,
    Dependency,
};
use crate::repositories::permission::{PermissionRepository, PermissionState, RoleGrant};
use crate::repositories::RepoError;

verus! {

/// A version as stored: everything but its edges.
#[derive(Debug)]
pub struct VersionRow {
    pub document_id: Id,
    pub version_id: Id,
    pub version_name: String,
    pub created_at: Timestamp,
    pub updated_at: Timestamp,
    pub content: String,
    pub version_state: DocumentVersionState,
}

/// What a `VersionRow` holds, as plain mathematical values.
pub struct VersionRecord {
    pub document_id: Id,
    pub version_id: Id,
    pub version_name: Seq<char>,
    pub created_at: Timestamp,
    pub updated_at: Timestamp,
    pub content: Seq<char>,
    pub version_state: DocumentVersionState,
}

impl View for VersionRow {
    type V = VersionRecord;

    open spec fn view(&self) -> VersionRecord {
        VersionRecord {
            document_id: self.document_id,
            version_id: self.version_id,
            version_name: self.version_name@,
            created_at: self.created_at,
            updated_at: self.updated_at,
            content: self.content@,
            version_state: self.version_state,
        }
    }
}

/// The rows of the version graph store, oldest first.
pub struct DocumentsState {
    pub documents: Seq<DocumentView>,
    pub versions: Seq<VersionRecord>,
    pub dependencies: Seq<Dependency>,
}

impl DocumentsState {
    /// Row `i` is the document `document_id`.
    pub open spec fn is_document(self, i: int, document_id: Id) -> bool {
        0 <= i < self.documents.len() && self.documents[i].document_id == document_id
    }

    /// Row `i` is the document named `name`.
    pub open spec fn is_document_named(self, i: int, name: Seq<char>) -> bool {
        0 <= i < self.documents.len() && self.documents[i].document_name == name
    }

    /// The document `document_id` exists.
    pub open spec fn has_document(self, document_id: Id) -> bool {
        exists|i: int| self.is_document(i, document_id)
    }

    /// Some document is named `name`.
    pub open spec fn has_document_named(self, name: Seq<char>) -> bool {
        exists|i: int| self.is_document_named(i, name)
    }

    /// The row of the document `document_id`, where it exists.
    pub open spec fn document_row(self, document_id: Id) -> int {
        choose|i: int| self.is_document(i, document_id)
    }

    /// Row `i` is version `version_id` of `document_id`.
    pub open spec fn is_version(self, i: int, document_id: Id, version_id: Id) -> bool {
        0 <= i < self.versions.len() && self.versions[i].document_id == document_id
            && self.versions[i].version_id == version_id
    }

    /// Row `i` is the version of `document_id` named `name`.
    pub open spec fn is_version_named(self, i: int, document_id: Id, name: Seq<char>) -> bool {
        0 <= i < self.versions.len() && self.versions[i].document_id == document_id
            && self.versions[i].version_name == name
    }

    /// Version `version_id` of `document_id` exists.
    pub open spec fn has_version(self, document_id: Id, version_id: Id) -> bool {
        exists|i: int| self.is_version(i, document_id, version_id)
    }

    /// Some version of `document_id` is named `name`.
    pub open spec fn has_version_named(self, document_id: Id, name: Seq<char>) -> bool {
        exists|i: int| self.is_version_named(i, document_id, name)
    }

    /// The row of version `version_id` of `document_id`, where it exists.
    pub open spec fn version_row(self, document_id: Id, version_id: Id) -> int {
        choose|i: int| self.is_version(i, document_id, version_id)
    }

    /// Row `j` is a version of `document_id`.
    pub open spec fn is_version_of(self, j: int, document_id: Id) -> bool {
        0 <= j < self.versions.len() && self.versions[j].document_id == document_id
    }

    /// Some version of `document_id` exists.
    pub open spec fn has_version_of(self, document_id: Id) -> bool {
        exists|j: int| self.is_version_of(j, document_id)
    }

    /// Edge `k` leads from version `version_id` of `document_id` to a parent.
    pub open spec fn is_parent_edge(self, k: int, document_id: Id, version_id: Id) -> bool {
        0 <= k < self.dependencies.len() && self.dependencies[k].graph_id == document_id
            && self.dependencies[k].child_version_id == version_id
    }

    /// Version `version_id` of `document_id` derives from some version.
    pub open spec fn has_parent(self, document_id: Id, version_id: Id) -> bool {
        exists|k: int| self.is_parent_edge(k, document_id, version_id)
    }

    /// No row before `i` belongs to the document of row `i`: row `i` is the
    /// initial version of its document.
    pub open spec fn is_initial(self, i: int) -> bool {
        forall|j: int|
            0 <= j < i ==> (#[trigger] self.versions[j]).document_id
                != self.versions[i].document_id
    }

    /// Both ends of edge `k` are versions of the edge's document, and the
    /// parent is the older of the two.
    pub open spec fn edge_grounded(self, k: int) -> bool {
        exists|p: int, c: int|
            p < c && #[trigger] self.is_version(
                p,
                self.dependencies[k].graph_id,
                self.dependencies[k].parent_version_id,
            ) && #[trigger] self.is_version(
                c,
                self.dependencies[k].graph_id,
                self.dependencies[k].child_version_id,
            )
    }

    /// The parents of version `version_id` of `document_id`.
    pub open spec fn parents_of(self, document_id: Id, version_id: Id) -> Seq<Id> {
        parents_among(self.dependencies, document_id, version_id)
    }

    /// The children of version `version_id` of `document_id`.
    pub open spec fn children_of(self, document_id: Id, version_id: Id) -> Seq<Id> {
        children_among(self.dependencies, document_id, version_id)
    }

    /// The version in row `i`, with its edges.
    pub open spec fn version_at(self, i: int) -> DocumentVersionView {
        let row = self.versions[i];
        DocumentVersionView {
            document_id: row.document_id,
            version_id: row.version_id,
            version_name: row.version_name,
            created_at: row.created_at,
            updated_at: row.updated_at,
            content: row.content,
            version_state: row.version_state,
            children: self.children_of(row.document_id, row.version_id),
            parents: self.parents_of(row.document_id, row.version_id),
        }
    }

    /// The invariant of the store.
    ///
    /// Documents differ in identifier and in name, and each has a version.
    /// Versions differ in (document, identifier) and in (document, name),
    /// belong to a document that exists, and are named by dotted numerals.
    /// Every edge joins two versions of one document, the parent older than
    /// the child. A version has no parent exactly if it is the initial version
    /// of its document.
    pub open spec fn wf(self) -> bool {
        &&& forall|i: int, j: int|
            #![trigger self.documents[i], self.documents[j]]
            0 <= i < self.documents.len() && 0 <= j < self.documents.len()
                && self.documents[i].document_id == self.documents[j].document_id ==> i == j
        &&& forall|i: int, j: int|
            #![trigger self.documents[i], self.documents[j]]
            0 <= i < self.documents.len() && 0 <= j < self.documents.len()
                && self.documents[i].document_name == self.documents[j].document_name ==> i == j
        &&& forall|i: int|
            0 <= i < self.documents.len() ==> self.has_version_of(
                (#[trigger] self.documents[i]).document_id,
            )
        &&& forall|i: int, j: int|
            #![trigger self.versions[i], self.versions[j]]
            0 <= i < self.versions.len() && 0 <= j < self.versions.len()
                && self.versions[i].document_id == self.versions[j].document_id
                && self.versions[i].version_id == self.versions[j].version_id ==> i == j
        &&& forall|i: int, j: int|
            #![trigger self.versions[i], self.versions[j]]
            0 <= i < self.versions.len() && 0 <= j < self.versions.len()
                && self.versions[i].document_id == self.versions[j].document_id
                && self.versions[i].version_name == self.versions[j].version_name ==> i == j
        &&& forall|i: int|
            0 <= i < self.versions.len() ==> self.has_document(
                (#[trigger] self.versions[i]).document_id,
            ) && is_version_name(self.versions[i].version_name)
        &&& forall|k: int| 0 <= k < self.dependencies.len() ==> #[trigger] self.edge_grounded(k)
        &&& forall|i: int|
            0 <= i < self.versions.len() ==> (#[trigger] self.is_initial(i) <==> !self.has_parent(
                self.versions[i].document_id,
                self.versions[i].version_id,
            ))
    }

    /// The store with the document `document` and its initial version `initial`.
    pub open spec fn with_document(self, document: DocumentView, initial: VersionRecord) -> DocumentsState {
        DocumentsState {
            documents: self.documents.push(document),
            versions: self.versions.push(initial),
            dependencies: self.dependencies,
        }
    }

    /// The store with the version `version`, derived from `parents`.
    pub open spec fn with_version(self, version: VersionRecord, parents: Seq<Id>) -> DocumentsState {
        DocumentsState {
            documents: self.documents,
            versions: self.versions.push(version),
            dependencies: self.dependencies + edges_to(
                version.document_id,
                version.version_id,
                parents,
            ),
        }
    }

    /// The store with the document in row `i` renamed to `name`.
    pub open spec fn with_name(self, i: int, name: Seq<char>) -> DocumentsState {
        DocumentsState {
            documents: self.documents.update(
                i,
                DocumentView { document_id: self.documents[i].document_id, document_name: name },
            ),
            ..self
        }
    }

    /// The store with row `i` replaced by `version`.
    pub open spec fn with_row(self, i: int, version: VersionRecord) -> DocumentsState {
        DocumentsState { versions: self.versions.update(i, version), ..self }
    }
}

/// The record of a version created at the time `now`: in progress, with `now` as its token.
pub open spec fn new_record(
    document_id: Id,
    version_id: Id,
    version_name: Seq<char>,
    content: Seq<char>,
    now: Timestamp,
) -> VersionRecord {
    VersionRecord {
        document_id,
        version_id,
        version_name,
        created_at: now,
        updated_at: now,
        content,
        version_state: DocumentVersionState::InProgress,
    }
}

/// In a well-formed store a version has one row only.
pub proof fn lemma_version_row(state: DocumentsState, i: int, document_id: Id, version_id: Id)
    requires
        state.wf(),
        state.is_version(i, document_id, version_id),
    ensures
        state.has_version(document_id, version_id),
        state.version_row(document_id, version_id) == i,
{
    let row = state.version_row(document_id, version_id);
    assert(state.is_version(row, document_id, version_id));
    assert(state.versions[row].version_id == state.versions[i].version_id);
}

/// In a well-formed store a document has one row only.
pub proof fn lemma_document_row(state: DocumentsState, i: int, document_id: Id)
    requires
        state.wf(),
        state.is_document(i, document_id),
    ensures
        state.has_document(document_id),
        state.document_row(document_id) == i,
{
    let row = state.document_row(document_id);
    assert(state.is_document(row, document_id));
    assert(state.documents[row].document_id == state.documents[i].document_id);
}

/// The token that a write at the time `now` gives to a version whose token is
/// `token`: the time of the write, or, where the clock has not moved past the
/// token, the microsecond after the token. It is never the token itself.
pub open spec fn next_token(token: Timestamp, now: Timestamp) -> int {
    if now > token {
        now as int
    } else {
        token + 1
    }
}

/// Computes `next_token`, where it is still a time that the store can hold.
pub fn renew_token(token: Timestamp, now: Timestamp) -> (renewed: Option<Timestamp>)
    ensures
        match renewed {
            Some(next) => next == next_token(token, now) && next != token,
            None => next_token(token, now) > i64::MAX,
        },
{
    if now > token {
        Some(now)
    } else if token < i64::MAX {
        Some(token + 1)
    } else {
        None
    }
}

/// The view of a version fresh from creation: in progress, without children.
pub open spec fn created_view(
    document_id: Id,
    version_id: Id,
    version_name: Seq<char>,
    content: Seq<char>,
    parents: Seq<Id>,
    now: Timestamp,
) -> DocumentVersionView {
    DocumentVersionView {
        document_id,
        version_id,
        version_name,
        created_at: now,
        updated_at: now,
        content,
        version_state: DocumentVersionState::InProgress,
        children: Seq::empty(),
        parents,
    }
}

/// The grant that makes `user_id` the owner of a version.
pub open spec fn ownership(user_id: Id, document_id: Id, version_id: Id) -> RoleGrant {
    RoleGrant { user_id, document_id, version_id, role: DocumentVersionRole::Owner }
}

impl DocumentsState {
    /// Why a document cannot be created, if it cannot: its first version's
    /// name is no version name, its display name is taken, or its identifier
    /// is in use.
    pub open spec fn document_refusal(
        self,
        document_id: Id,
        document_name: Seq<char>,
        version_name: Seq<char>,
    ) -> Option<RepoError> {
        if !is_version_name(version_name) {
            Some(RepoError::InvalidRequest)
        } else if self.has_document_named(document_name) {
            Some(RepoError::UniqueConflict)
        } else if self.has_document(document_id) {
            Some(RepoError::StoreFailure)
        } else {
            None
        }
    }

    /// Every one of `parents` is a version of `document_id`.
    pub open spec fn has_versions(self, document_id: Id, parents: Seq<Id>) -> bool {
        forall|k: int| 0 <= k < parents.len() ==> self.has_version(document_id, #[trigger] parents[k])
    }

    /// Why a version cannot be created, if it cannot: the request names no
    /// version name, no parent or a parent twice; the document or a parent
    /// does not exist; the name is taken within the document; or the
    /// identifier is in use.
    pub open spec fn version_refusal(
        self,
        document_id: Id,
        version_id: Id,
        version_name: Seq<char>,
        parents: Seq<Id>,
    ) -> Option<RepoError> {
        if !is_version_name(version_name) || parents.len() == 0 || !parents.no_duplicates() {
            Some(RepoError::InvalidRequest)
        } else if !self.has_document(document_id) {
            Some(RepoError::NotFound)
        } else if self.has_version_named(document_id, version_name) {
            Some(RepoError::UniqueConflict)
        } else if !self.has_versions(document_id, parents) {
            Some(RepoError::NotFound)
        } else if self.has_version(document_id, version_id) {
            Some(RepoError::StoreFailure)
        } else {
            None
        }
    }

    /// What creating a document does, to this store and to the role store.
    ///
    /// Where nothing stands in the way, the document and its initial version
    /// are recorded and `user_id` becomes the version's owner; the version is
    /// in progress, with `now` as its token, without parents or children.
    /// Otherwise both stores stay as they were.
    pub open spec fn creates_document(
        self,
        after: DocumentsState,
        roles: PermissionState,
        roles_after: PermissionState,
        result: Result<DocumentWithInitialVersion, RepoError>,
        user_id: Id,
        document_id: Id,
        version_id: Id,
        now: Timestamp,
        document_name: Seq<char>,
        version_name: Seq<char>,
        content: Seq<char>,
    ) -> bool {
        match self.document_refusal(document_id, document_name, version_name) {
            Some(error) => result == Err::<
                DocumentWithInitialVersion,
                RepoError,
            >(error) && after == self && roles_after == roles,
            None => {
                &&& after == self.with_document(
                    DocumentView { document_id, document_name },
                    new_record(document_id, version_id, version_name, content, now),
                )
                &&& roles_after == roles.granting(ownership(user_id, document_id, version_id))
                &&& result matches Ok(created)
                &&& created.document@ == (DocumentView { document_id, document_name })
                &&& created.initial_version@ == created_view(
                    document_id,
                    version_id,
                    version_name,
                    content,
                    Seq::empty(),
                    now,
                )
            },
        }
    }

    /// What creating a version from `parents` does, to this store and to the
    /// role store.
    ///
    /// Where nothing stands in the way, the version is recorded with one edge
    /// to each parent and `user_id` becomes its owner; the version is in
    /// progress, with `now` as its token, without children. Otherwise both
    /// stores stay as they were.
    pub open spec fn creates_version(
        self,
        after: DocumentsState,
        roles: PermissionState,
        roles_after: PermissionState,
        result: Result<DocumentVersion, RepoError>,
        user_id: Id,
        document_id: Id,
        version_id: Id,
        now: Timestamp,
        version_name: Seq<char>,
        content: Seq<char>,
        parents: Seq<Id>,
    ) -> bool {
        match self.version_refusal(document_id, version_id, version_name, parents) {
            Some(error) => result == Err::<DocumentVersion, RepoError>(error) && after == self
                && roles_after == roles,
            None => {
                &&& after == self.with_version(
                    new_record(document_id, version_id, version_name, content, now),
                    parents,
                )
                &&& roles_after == roles.granting(ownership(user_id, document_id, version_id))
                &&& result matches Ok(created)
                &&& created@ == created_view(
                    document_id,
                    version_id,
                    version_name,
                    content,
                    parents,
                    now,
                )
            },
        }
    }

    /// What renaming a document does: nothing, reported as `false`, where the
    /// document does not exist; a `UniqueConflict` that changes nothing where
    /// another document has the name; else the document has the new name.
    pub open spec fn renames(
        self,
        after: DocumentsState,
        result: Result<bool, RepoError>,
        document_id: Id,
        document_name: Seq<char>,
    ) -> bool {
        if !self.has_document(document_id) {
            result == Ok::<bool, RepoError>(false) && after == self
        } else {
            let i = self.document_row(document_id);
            if self.documents[i].document_name != document_name && self.has_document_named(
                document_name,
            ) {
                result == Err::<bool, RepoError>(RepoError::UniqueConflict) && after == self
            } else {
                result == Ok::<bool, RepoError>(true) && after == self.with_name(i, document_name)
            }
        }
    }

    /// What a request to move version `version_id` of `document_id` to
    /// `target` does, when the writer presents the token `expected` at the
    /// time `now`.
    ///
    /// The change is applied only if the token is current and the transition
    /// is legal; then the version gets a new token, `next_token`. A stale
    /// token is a conflict, and the error carries the version as it stands; a
    /// current token with an illegal transition is a rejection; a new token
    /// beyond the last time that the store can hold is a failure of the store.
    /// Unless applied, nothing changes.
    pub open spec fn changes_state(
        self,
        after: DocumentsState,
        result: Result<DocumentVersion, RepoError>,
        document_id: Id,
        version_id: Id,
        target: DocumentVersionState,
        expected: Timestamp,
        now: Timestamp,
    ) -> bool {
        if !self.has_version(document_id, version_id) {
            result == Err::<DocumentVersion, RepoError>(RepoError::NotFound) && after == self
        } else {
            let i = self.version_row(document_id, version_id);
            let row = self.versions[i];
            if row.updated_at != expected {
                &&& after == self
                &&& result matches Err(RepoError::ConcurrencyConflict(current))
                &&& current@ == self.version_at(i)
            } else if !row.version_state.may_enter(target) {
                result == Err::<DocumentVersion, RepoError>(RepoError::TransitionRejected) && after
                    == self
            } else if next_token(row.updated_at, now) > i64::MAX {
                result == Err::<DocumentVersion, RepoError>(RepoError::StoreFailure) && after
                    == self
            } else {
                &&& after == self.with_row(
                    i,
                    VersionRecord {
                        version_state: target,
                        updated_at: next_token(row.updated_at, now) as i64,
                        ..row
                    },
                )
                &&& result matches Ok(updated)
                &&& updated@ == after.version_at(i)
            }
        }
    }

    /// What a request to replace the content of version `version_id` of
    /// `document_id` does, when the writer presents the token `expected` at
    /// the time `now`.
    ///
    /// The content is replaced only if the token is current and the version
    /// is in progress; then the version gets a new token, `next_token`. A
    /// stale token is a conflict, and the error carries the version as it
    /// stands; a current token on a version that is not in progress is a
    /// rejection; a new token beyond the last time that the store can hold is
    /// a failure of the store. Unless applied, nothing changes.
    pub open spec fn updates_content(
        self,
        after: DocumentsState,
        result: Result<DocumentVersion, RepoError>,
        document_id: Id,
        version_id: Id,
        content: Seq<char>,
        expected: Timestamp,
        now: Timestamp,
    ) -> bool {
        if !self.has_version(document_id, version_id) {
            result == Err::<DocumentVersion, RepoError>(RepoError::NotFound) && after == self
        } else {
            let i = self.version_row(document_id, version_id);
            let row = self.versions[i];
            if row.updated_at != expected {
                &&& after == self
                &&& result matches Err(RepoError::ConcurrencyConflict(current))
                &&& current@ == self.version_at(i)
            } else if row.version_state != DocumentVersionState::InProgress {
                result == Err::<DocumentVersion, RepoError>(RepoError::TransitionRejected) && after
                    == self
            } else if next_token(row.updated_at, now) > i64::MAX {
                result == Err::<DocumentVersion, RepoError>(RepoError::StoreFailure) && after
                    == self
            } else {
                &&& after == self.with_row(
                    i,
                    VersionRecord {
                        content,
                        updated_at: next_token(row.updated_at, now) as i64,
                        ..row
                    },
                )
                &&& result matches Ok(updated)
                &&& updated@ == after.version_at(i)
            }
        }
    }
}

/// The documents among `documents` on which `user_id` holds a role, in order.
pub open spec fn documents_visible_among(
    documents: Seq<DocumentView>,
    roles: PermissionState,
    user_id: Id,
) -> Seq<DocumentView>
    decreases documents.len(),
{
    if documents.len() == 0 {
        Seq::empty()
    } else {
        let earlier = documents_visible_among(documents.drop_last(), roles, user_id);
        if roles.has_role_in_document(user_id, documents.last().document_id) {
            earlier.push(documents.last())
        } else {
            earlier
        }
    }
}

impl DocumentsState {
    /// Row `i` is a version of `document_id` on which `user_id` holds a role.
    pub open spec fn is_visible(
        self,
        roles: PermissionState,
        user_id: Id,
        document_id: Id,
        i: int,
    ) -> bool {
        0 <= i < self.versions.len() && self.versions[i].document_id == document_id
            && roles.has_any_role(user_id, document_id, self.versions[i].version_id)
    }

    /// Row `a` is listed before row `b`: it was created earlier, or at the
    /// same time and recorded earlier.
    pub open spec fn listed_before(self, a: int, b: int) -> bool {
        self.versions[a].created_at < self.versions[b].created_at || (self.versions[a].created_at
            == self.versions[b].created_at && a < b)
    }

    /// `listed` is what `user_id` sees of `document_id`: the versions in
    /// `rows`, which are exactly those on which the user holds a role, each
    /// once, oldest first.
    pub open spec fn lists_versions(
        self,
        roles: PermissionState,
        user_id: Id,
        document_id: Id,
        rows: Seq<int>,
        listed: Seq<DocumentVersion>,
    ) -> bool {
        &&& rows.len() == listed.len()
        &&& forall|k: int|
            0 <= k < rows.len() ==> self.is_visible(roles, user_id, document_id, #[trigger] rows[k])
                && listed[k]@ == self.version_at(rows[k])
        &&& forall|i: int|
            self.is_visible(roles, user_id, document_id, i) ==> #[trigger] rows.contains(i)
        &&& forall|a: int, b: int|
            0 <= a < b < rows.len() ==> #[trigger] self.listed_before(rows[a], rows[b])
    }

    /// What reading one version gives: the version with its edges where the
    /// user holds a role on it and it exists; `Forbidden` where the user holds
    /// no role on it, whether or not it exists.
    pub open spec fn reads_version(
        self,
        roles: PermissionState,
        result: Result<DocumentVersion, RepoError>,
        user_id: Id,
        document_id: Id,
        version_id: Id,
    ) -> bool {
        if !roles.has_any_role(user_id, document_id, version_id) {
            result == Err::<DocumentVersion, RepoError>(RepoError::Forbidden)
        } else if !self.has_version(document_id, version_id) {
            result == Err::<DocumentVersion, RepoError>(RepoError::NotFound)
        } else {
            result matches Ok(version) && version@ == self.version_at(
                self.version_row(document_id, version_id),
            )
        }
    }

    /// What reading one document gives: the document where it exists and the
    /// user holds a role on one of its versions, else `Forbidden`.
    pub open spec fn reads_document(
        self,
        roles: PermissionState,
        result: Result<Document, RepoError>,
        user_id: Id,
        document_id: Id,
    ) -> bool {
        if self.has_document(document_id) && roles.has_role_in_document(user_id, document_id) {
            result matches Ok(document) && document@ == self.documents[self.document_row(
                document_id,
            )]
        } else {
            result == Err::<Document, RepoError>(RepoError::Forbidden)
        }
    }
}

/// Nothing derives from the version recorded last.
pub proof fn lemma_children_of_newest(state: DocumentsState, i: int)
    requires
        state.wf(),
        i == state.versions.len() - 1,
        i >= 0,
    ensures
        state.version_at(i).children == Seq::<Id>::empty(),
{
    let d = state.versions[i].document_id;
    let v = state.versions[i].version_id;
    lemma_no_children_among(state, state.dependencies.len() as int, d, v, i);
    assert(state.dependencies.take(state.dependencies.len() as int) == state.dependencies);
}

/// No edge among the first `upto` leads to the version recorded last.
proof fn lemma_no_children_among(state: DocumentsState, upto: int, d: Id, v: Id, i: int)
    requires
        state.wf(),
        i == state.versions.len() - 1,
        state.is_version(i, d, v),
        0 <= upto <= state.dependencies.len(),
    ensures
        children_among(state.dependencies.take(upto), d, v) == Seq::<Id>::empty(),
    decreases upto,
{
    if upto > 0 {
        lemma_no_children_among(state, upto - 1, d, v, i);
        assert(state.dependencies.take(upto).drop_last() == state.dependencies.take(upto - 1));
        let edge = state.dependencies[upto - 1];
        assert(state.dependencies.take(upto).last() == edge);
        assert(state.edge_grounded(upto - 1));
        if edge.graph_id == d && edge.parent_version_id == v {
            let (p, c) = choose|p: int, c: int|
                p < c && #[trigger] state.is_version(p, d, v) && #[trigger] state.is_version(
                    c,
                    d,
                    edge.child_version_id,
                );
            assert(state.versions[p].version_id == state.versions[i].version_id);
        }
    }
}

/// A document that does not exist has neither versions nor edges.
pub proof fn lemma_nothing_of_missing_document(state: DocumentsState, document_id: Id)
    requires
        state.wf(),
        !state.has_document(document_id),
    ensures
        forall|i: int|
            0 <= i < state.versions.len() ==> (#[trigger] state.versions[i]).document_id
                != document_id,
        forall|k: int|
            0 <= k < state.dependencies.len() ==> (#[trigger] state.dependencies[k]).graph_id
                != document_id,
{
    assert forall|k: int| 0 <= k < state.dependencies.len() implies (
    #[trigger] state.dependencies[k]).graph_id != document_id by {
        assert(state.edge_grounded(k));
    }
}

/// Recording a new document with its initial version keeps the store
/// well-formed, and the initial version has no parent.
pub proof fn lemma_with_document_wf(
    state: DocumentsState,
    document: DocumentView,
    initial: VersionRecord,
)
    requires
        state.wf(),
        !state.has_document(document.document_id),
        !state.has_document_named(document.document_name),
        initial.document_id == document.document_id,
        is_version_name(initial.version_name),
    ensures
        state.with_document(document, initial).wf(),
        state.with_document(document, initial).is_initial(state.versions.len() as int),
        !state.with_document(document, initial).has_parent(
            initial.document_id,
            initial.version_id,
        ),
{
    let after = state.with_document(document, initial);
    assert forall|r: int| 0 <= r < after.documents.len() implies after.has_version_of(
        (#[trigger] after.documents[r]).document_id,
    ) by {
        if r < state.documents.len() {
            let of = state.documents[r].document_id;
            assert(state.has_version_of(of));
            let j = choose|j: int| state.is_version_of(j, of);
            assert(after.is_version_of(j, after.documents[r].document_id));
        } else {
            assert(after.is_version_of(state.versions.len() as int, document.document_id));
        }
    }
    let n = state.versions.len() as int;
    let m = state.documents.len() as int;
    lemma_nothing_of_missing_document(state, document.document_id);
    assert forall|i: int, j: int|
        #![trigger after.documents[i], after.documents[j]]
        0 <= i < after.documents.len() && 0 <= j < after.documents.len()
            && after.documents[i].document_id == after.documents[j].document_id implies i
        == j by {
        if i < m {
            assert(!state.is_document(i, document.document_id));
        }
        if j < m {
            assert(!state.is_document(j, document.document_id));
        }
    }
    assert forall|i: int, j: int|
        #![trigger after.documents[i], after.documents[j]]
        0 <= i < after.documents.len() && 0 <= j < after.documents.len()
            && after.documents[i].document_name == after.documents[j].document_name implies i
        == j by {
        if i < m {
            assert(!state.is_document_named(i, document.document_name));
        }
        if j < m {
            assert(!state.is_document_named(j, document.document_name));
        }
    }
    assert forall|i: int| 0 <= i < after.versions.len() implies after.has_document(
        (#[trigger] after.versions[i]).document_id,
    ) && is_version_name(after.versions[i].version_name) by {
        if i < n {
            let row = state.document_row(state.versions[i].document_id);
            assert(state.is_document(row, state.versions[i].document_id));
            assert(after.is_document(row, after.versions[i].document_id));
        } else {
            assert(after.is_document(m, document.document_id));
        }
    }
    assert forall|k: int| 0 <= k < after.dependencies.len() implies #[trigger] after.edge_grounded(
        k,
    ) by {
        assert(state.edge_grounded(k));
        let edge = state.dependencies[k];
        let (p, c) = choose|p: int, c: int|
            p < c && #[trigger] state.is_version(p, edge.graph_id, edge.parent_version_id)
                && #[trigger] state.is_version(c, edge.graph_id, edge.child_version_id);
        assert(after.is_version(p, edge.graph_id, edge.parent_version_id));
        assert(after.is_version(c, edge.graph_id, edge.child_version_id));
    }
    assert(!after.has_parent(initial.document_id, initial.version_id)) by {
        assert forall|k: int| !after.is_parent_edge(
            k,
            initial.document_id,
            initial.version_id,
        ) by {}
    }
    assert(after.is_initial(n));
    assert forall|i: int| 0 <= i < after.versions.len() implies (#[trigger] after.is_initial(i)
        <==> !after.has_parent(after.versions[i].document_id, after.versions[i].version_id)) by {
        if i < n {
            let d = state.versions[i].document_id;
            let v = state.versions[i].version_id;
            assert(state.is_initial(i) <==> !state.has_parent(d, v));
            assert(after.is_initial(i) <==> state.is_initial(i)) by {
                if state.is_initial(i) {
                    assert forall|j: int| 0 <= j < i implies (#[trigger] after.versions[j]).document_id
                        != after.versions[i].document_id by {
                        assert(state.versions[j].document_id != state.versions[i].document_id);
                    }
                }
                if after.is_initial(i) {
                    assert forall|j: int| 0 <= j < i implies (#[trigger] state.versions[j]).document_id
                        != state.versions[i].document_id by {
                        assert(after.versions[j].document_id != after.versions[i].document_id);
                    }
                }
            }
            assert(after.has_parent(d, v) <==> state.has_parent(d, v)) by {
                if state.has_parent(d, v) {
                    let k = choose|k: int| state.is_parent_edge(k, d, v);
                    assert(after.is_parent_edge(k, d, v));
                }
                if after.has_parent(d, v) {
                    let k = choose|k: int| after.is_parent_edge(k, d, v);
                    assert(state.is_parent_edge(k, d, v));
                }
            }
        }
    }
}

/// Recording a new version with edges to existing parents keeps the store
/// well-formed.
pub proof fn lemma_with_version_wf(state: DocumentsState, version: VersionRecord, parents: Seq<Id>)
    requires
        state.wf(),
        state.version_refusal(
            version.document_id,
            version.version_id,
            version.version_name,
            parents,
        ) is None,
    ensures
        state.with_version(version, parents).wf(),
{
    let after = state.with_version(version, parents);
    assert forall|r: int| 0 <= r < after.documents.len() implies after.has_version_of(
        (#[trigger] after.documents[r]).document_id,
    ) by {
        let of = state.documents[r].document_id;
        assert(state.has_version_of(of));
        let j = choose|j: int| state.is_version_of(j, of);
        assert(after.is_version_of(j, after.documents[r].document_id));
    }
    let n = state.versions.len() as int;
    let m = state.dependencies.len() as int;
    let d = version.document_id;
    let v = version.version_id;
    assert forall|i: int, j: int|
        #![trigger after.versions[i], after.versions[j]]
        0 <= i < after.versions.len() && 0 <= j < after.versions.len()
            && after.versions[i].document_id == after.versions[j].document_id
            && after.versions[i].version_id == after.versions[j].version_id implies i == j by {
        if i < n {
            assert(!state.is_version(i, d, v));
        }
        if j < n {
            assert(!state.is_version(j, d, v));
        }
    }
    assert forall|i: int, j: int|
        #![trigger after.versions[i], after.versions[j]]
        0 <= i < after.versions.len() && 0 <= j < after.versions.len()
            && after.versions[i].document_id == after.versions[j].document_id
            && after.versions[i].version_name == after.versions[j].version_name implies i == j by {
        if i < n {
            assert(!state.is_version_named(i, d, version.version_name));
        }
        if j < n {
            assert(!state.is_version_named(j, d, version.version_name));
        }
    }
    assert forall|i: int| 0 <= i < after.versions.len() implies after.has_document(
        (#[trigger] after.versions[i]).document_id,
    ) && is_version_name(after.versions[i].version_name) by {
        let row = state.document_row(after.versions[i].document_id);
        if i < n {
            assert(state.has_document(state.versions[i].document_id));
        }
        assert(state.is_document(row, after.versions[i].document_id));
        assert(after.is_document(row, after.versions[i].document_id));
    }
    assert forall|k: int| 0 <= k < after.dependencies.len() implies #[trigger] after.edge_grounded(
        k,
    ) by {
        if k < m {
            assert(state.edge_grounded(k));
            let edge = state.dependencies[k];
            assert(after.dependencies[k] == edge);
            let (p, c) = choose|p: int, c: int|
                p < c && #[trigger] state.is_version(p, edge.graph_id, edge.parent_version_id)
                    && #[trigger] state.is_version(c, edge.graph_id, edge.child_version_id);
            assert(after.is_version(p, edge.graph_id, edge.parent_version_id));
            assert(after.is_version(c, edge.graph_id, edge.child_version_id));
        } else {
            let parent = parents[k - m];
            assert(after.dependencies[k] == edges_to(d, v, parents)[k - m]);
            assert(state.has_version(d, parent));
            let p = state.version_row(d, parent);
            assert(state.is_version(p, d, parent));
            assert(after.is_version(p, d, parent));
            assert(after.is_version(n, d, v));
            assert(after.dependencies[k].graph_id == d);
            assert(after.dependencies[k].parent_version_id == parent);
            assert(after.dependencies[k].child_version_id == v);
        }
    }
    assert forall|i: int| 0 <= i < after.versions.len() implies (#[trigger] after.is_initial(i)
        <==> !after.has_parent(after.versions[i].document_id, after.versions[i].version_id)) by {
        if i < n {
            let di = state.versions[i].document_id;
            let vi = state.versions[i].version_id;
            assert(!state.is_version(i, d, v));
            assert(state.is_initial(i) <==> !state.has_parent(di, vi));
            assert(after.is_initial(i) <==> state.is_initial(i)) by {
                if state.is_initial(i) {
                    assert forall|j: int| 0 <= j < i implies (#[trigger] after.versions[j]).document_id
                        != after.versions[i].document_id by {
                        assert(state.versions[j].document_id != state.versions[i].document_id);
                    }
                }
                if after.is_initial(i) {
                    assert forall|j: int| 0 <= j < i implies (#[trigger] state.versions[j]).document_id
                        != state.versions[i].document_id by {
                        assert(after.versions[j].document_id != after.versions[i].document_id);
                    }
                }
            }
            assert(after.has_parent(di, vi) <==> state.has_parent(di, vi)) by {
                if state.has_parent(di, vi) {
                    let k = choose|k: int| state.is_parent_edge(k, di, vi);
                    assert(after.is_parent_edge(k, di, vi));
                }
                if after.has_parent(di, vi) {
                    let k = choose|k: int| after.is_parent_edge(k, di, vi);
                    assert(state.is_parent_edge(k, di, vi));
                }
            }
        } else {
            assert(after.is_parent_edge(m, d, v));
            assert(state.has_version(d, parents[0]));
            let p = state.version_row(d, parents[0]);
            assert(state.is_version(p, d, parents[0]));
            assert(after.versions[p].document_id == after.versions[n].document_id);
        }
    }
}

/// A change that keeps every edge, every document's identifier and every
/// version's document, identifier and name, and that leaves no two documents
/// with one name, keeps the store well-formed and every version where it was.
proof fn lemma_same_keys_wf(state: DocumentsState, after: DocumentsState)
    requires
        state.wf(),
        after.dependencies == state.dependencies,
        after.versions.len() == state.versions.len(),
        forall|j: int|
            0 <= j < state.versions.len() ==> (#[trigger] after.versions[j]).document_id
                == state.versions[j].document_id && after.versions[j].version_id
                == state.versions[j].version_id && after.versions[j].version_name
                == state.versions[j].version_name,
        after.documents.len() == state.documents.len(),
        forall|r: int|
            0 <= r < state.documents.len() ==> (#[trigger] after.documents[r]).document_id
                == state.documents[r].document_id,
        forall|a: int, b: int|
            #![trigger after.documents[a], after.documents[b]]
            0 <= a < after.documents.len() && 0 <= b < after.documents.len()
                && after.documents[a].document_name == after.documents[b].document_name ==> a
                == b,
    ensures
        after.wf(),
        forall|j: int, d: Id, v: Id| #[trigger] after.is_version(j, d, v) <==> state.is_version(j, d, v),
{
    assert forall|a: int, b: int|
        #![trigger after.documents[a], after.documents[b]]
        0 <= a < after.documents.len() && 0 <= b < after.documents.len()
            && after.documents[a].document_id == after.documents[b].document_id implies a
        == b by {
        assert(state.documents[a].document_id == state.documents[b].document_id);
    }
    assert forall|r: int| 0 <= r < after.documents.len() implies after.has_version_of(
        (#[trigger] after.documents[r]).document_id,
    ) by {
        let of = state.documents[r].document_id;
        assert(state.has_version_of(of));
        let j = choose|j: int| state.is_version_of(j, of);
        assert(after.is_version_of(j, after.documents[r].document_id));
    }
    assert forall|a: int, b: int|
        #![trigger after.versions[a], after.versions[b]]
        0 <= a < after.versions.len() && 0 <= b < after.versions.len()
            && after.versions[a].document_id == after.versions[b].document_id && (
        after.versions[a].version_id == after.versions[b].version_id
            || after.versions[a].version_name == after.versions[b].version_name) implies a
        == b by {
        assert(state.versions[a].document_id == state.versions[b].document_id);
    }
    assert forall|j: int| 0 <= j < after.versions.len() implies after.has_document(
        (#[trigger] after.versions[j]).document_id,
    ) && is_version_name(after.versions[j].version_name) by {
        assert(state.has_document(state.versions[j].document_id));
        let row = state.document_row(state.versions[j].document_id);
        assert(state.is_document(row, state.versions[j].document_id));
        assert(after.is_document(row, after.versions[j].document_id));
    }
    assert forall|k: int| 0 <= k < after.dependencies.len() implies #[trigger] after.edge_grounded(
        k,
    ) by {
        assert(state.edge_grounded(k));
        let edge = state.dependencies[k];
        let (p, c) = choose|p: int, c: int|
            p < c && #[trigger] state.is_version(p, edge.graph_id, edge.parent_version_id)
                && #[trigger] state.is_version(c, edge.graph_id, edge.child_version_id);
        assert(after.is_version(p, edge.graph_id, edge.parent_version_id));
        assert(after.is_version(c, edge.graph_id, edge.child_version_id));
    }
    assert forall|j: int| 0 <= j < after.versions.len() implies (#[trigger] after.is_initial(j)
        <==> !after.has_parent(after.versions[j].document_id, after.versions[j].version_id)) by {
        let dj = state.versions[j].document_id;
        let vj = state.versions[j].version_id;
        assert(state.is_initial(j) <==> !state.has_parent(dj, vj));
        assert(after.is_initial(j) <==> state.is_initial(j)) by {
            if state.is_initial(j) {
                assert forall|h: int| 0 <= h < j implies (#[trigger] after.versions[h]).document_id
                    != after.versions[j].document_id by {
                    assert(state.versions[h].document_id != state.versions[j].document_id);
                }
            }
            if after.is_initial(j) {
                assert forall|h: int| 0 <= h < j implies (#[trigger] state.versions[h]).document_id
                    != state.versions[j].document_id by {
                    assert(after.versions[h].document_id != after.versions[j].document_id);
                }
            }
        }
        assert(after.has_parent(dj, vj) <==> state.has_parent(dj, vj)) by {
            if state.has_parent(dj, vj) {
                let k = choose|k: int| state.is_parent_edge(k, dj, vj);
                assert(after.is_parent_edge(k, dj, vj));
            }
            if after.has_parent(dj, vj) {
                let k = choose|k: int| after.is_parent_edge(k, dj, vj);
                assert(state.is_parent_edge(k, dj, vj));
            }
        }
    }
}

/// Renaming a document to a name that no other document has keeps the store
/// well-formed.
pub proof fn lemma_with_name_wf(state: DocumentsState, i: int, name: Seq<char>)
    requires
        state.wf(),
        0 <= i < state.documents.len(),
        forall|j: int|
            0 <= j < state.documents.len() && j != i ==> (
            #[trigger] state.documents[j]).document_name != name,
    ensures
        state.with_name(i, name).wf(),
{
    let after = state.with_name(i, name);
    assert forall|a: int, b: int|
        #![trigger after.documents[a], after.documents[b]]
        0 <= a < after.documents.len() && 0 <= b < after.documents.len()
            && after.documents[a].document_name == after.documents[b].document_name implies a
        == b by {
        if a != i && b != i {
            assert(state.documents[a].document_name == state.documents[b].document_name);
        }
    }
    lemma_same_keys_wf(state, after);
}

/// Replacing a version's state, content or token keeps the store well-formed,
/// and leaves every version where it was.
pub proof fn lemma_with_row_wf(state: DocumentsState, i: int, version: VersionRecord)
    requires
        state.wf(),
        0 <= i < state.versions.len(),
        version.document_id == state.versions[i].document_id,
        version.version_id == state.versions[i].version_id,
        version.version_name == state.versions[i].version_name,
    ensures
        state.with_row(i, version).wf(),
        forall|j: int, d: Id, v: Id| #[trigger]
            state.with_row(i, version).is_version(j, d, v) <==> state.is_version(j, d, v),
{
    lemma_same_keys_wf(state, state.with_row(i, version));
}

/// Whether some identifier occurs twice in `ids`.
pub fn has_duplicates(ids: &Vec<Id>) -> (found: bool)
    ensures
        found == !ids@.no_duplicates(),
{
    let mut i: usize = 0;
    while i < ids.len()
        invariant
            0 <= i <= ids.len(),
            forall|a: int, b: int| 0 <= a < b < i ==> ids@[a] != ids@[b],
        decreases ids.len() - i,
    {
        let mut j: usize = 0;
        while j < i
            invariant
                0 <= j <= i < ids.len(),
                forall|a: int| 0 <= a < j ==> ids@[a] != ids@[i as int],
            decreases i - j,
        {
            if ids[j] == ids[i] {
                return true;
            }
            j += 1;
        }
        i += 1;
    }
    assert forall|a: int, b: int|
        0 <= a < ids@.len() && 0 <= b < ids@.len() && a != b implies ids@[a] != ids@[b] by {
        if a < b {
        } else {
            assert(ids@[b] != ids@[a]);
        }
    }
    false
}

/// The version graph store.
pub struct DocumentsRepository {
    documents: Vec<Document>,
    versions: Vec<VersionRow>,
    dependencies: Vec<Dependency>,
}

impl View for DocumentsRepository {
    type V = DocumentsState;

    closed spec fn view(&self) -> DocumentsState {
        DocumentsState {
            documents: self.documents@.map_values(|document: Document| document@),
            versions: self.versions@.map_values(|version: VersionRow| version@),
            dependencies: self.dependencies@,
        }
    }
}

impl DocumentsRepository {
    /// A store without documents.
    pub fn new() -> (repository: DocumentsRepository)
        ensures
            repository@.documents.len() == 0,
            repository@.versions.len() == 0,
            repository@.dependencies.len() == 0,
            repository@.wf(),
    {
        DocumentsRepository {
            documents: Vec::new(),
            versions: Vec::new(),
            dependencies: Vec::new(),
        }
    }

    /// The row of the document `document_id`.
    fn find_document(&self, document_id: Id) -> (row: Option<usize>)
        ensures
            match row {
                Some(i) => self@.is_document(i as int, document_id),
                None => !self@.has_document(document_id),
            },
    {
        let mut i: usize = 0;
        while i < self.documents.len()
            invariant
                0 <= i <= self.documents.len(),
                forall|k: int| 0 <= k < i ==> !self@.is_document(k, document_id),
            decreases self.documents.len() - i,
        {
            if self.documents[i].document_id == document_id {
                return Some(i);
            }
            i += 1;
        }
        None
    }

    /// The row of the document named `name`.
    fn find_document_named(&self, name: &String) -> (row: Option<usize>)
        ensures
            match row {
                Some(i) => self@.is_document_named(i as int, name@),
                None => !self@.has_document_named(name@),
            },
    {
        let mut i: usize = 0;
        while i < self.documents.len()
            invariant
                0 <= i <= self.documents.len(),
                forall|k: int| 0 <= k < i ==> !self@.is_document_named(k, name@),
            decreases self.documents.len() - i,
        {
            if self.documents[i].document_name == *name {
                return Some(i);
            }
            i += 1;
        }
        None
    }

    /// The row of version `version_id` of `document_id`.
    fn find_version(&self, document_id: Id, version_id: Id) -> (row: Option<usize>)
        ensures
            match row {
                Some(i) => self@.is_version(i as int, document_id, version_id),
                None => !self@.has_version(document_id, version_id),
            },
    {
        let mut i: usize = 0;
        while i < self.versions.len()
            invariant
                0 <= i <= self.versions.len(),
                forall|k: int| 0 <= k < i ==> !self@.is_version(k, document_id, version_id),
            decreases self.versions.len() - i,
        {
            if self.versions[i].document_id == document_id && self.versions[i].version_id
                == version_id {
                return Some(i);
            }
            i += 1;
        }
        None
    }

    /// The row of the version of `document_id` named `name`.
    fn find_version_named(&self, document_id: Id, name: &String) -> (row: Option<usize>)
        ensures
            match row {
                Some(i) => self@.is_version_named(i as int, document_id, name@),
                None => !self@.has_version_named(document_id, name@),
            },
    {
        let mut i: usize = 0;
        while i < self.versions.len()
            invariant
                0 <= i <= self.versions.len(),
                forall|k: int| 0 <= k < i ==> !self@.is_version_named(k, document_id, name@),
            decreases self.versions.len() - i,
        {
            if self.versions[i].document_id == document_id && self.versions[i].version_name
                == *name {
                return Some(i);
            }
            i += 1;
        }
        None
    }

    /// Whether version `version_id` of `document_id` exists.
    pub fn contains_version(&self, document_id: Id, version_id: Id) -> (found: bool)
        ensures
            found == self@.has_version(document_id, version_id),
    {
        self.find_version(document_id, version_id).is_some()
    }

    /// Whether every one of `parents` is a version of `document_id`.
    fn has_versions(&self, document_id: Id, parents: &Vec<Id>) -> (all: bool)
        ensures
            all == self@.has_versions(document_id, parents@),
    {
        let mut k: usize = 0;
        while k < parents.len()
            invariant
                0 <= k <= parents.len(),
                forall|j: int| 0 <= j < k ==> self@.has_version(document_id, #[trigger] parents@[j]),
            decreases parents.len() - k,
        {
            if self.find_version(document_id, parents[k]).is_none() {
                return false;
            }
            k += 1;
        }
        true
    }

    /// The parents of version `version_id` of `document_id`.
    fn parents_of(&self, document_id: Id, version_id: Id) -> (parents: Vec<Id>)
        ensures
            parents@ == self@.parents_of(document_id, version_id),
    {
        let mut parents: Vec<Id> = Vec::new();
        let mut k: usize = 0;
        while k < self.dependencies.len()
            invariant
                0 <= k <= self.dependencies.len(),
                parents@ == parents_among(self.dependencies@.take(k as int), document_id, version_id),
            decreases self.dependencies.len() - k,
        {
            let edge = &self.dependencies[k];
            assert(self.dependencies@.take(k + 1).drop_last() == self.dependencies@.take(k as int));
            if edge.graph_id == document_id && edge.child_version_id == version_id {
                parents.push(edge.parent_version_id);
            }
            k += 1;
        }
        assert(self.dependencies@.take(k as int) == self.dependencies@);
        parents
    }

    /// The children of version `version_id` of `document_id`.
    fn children_of(&self, document_id: Id, version_id: Id) -> (children: Vec<Id>)
        ensures
            children@ == self@.children_of(document_id, version_id),
    {
        let mut children: Vec<Id> = Vec::new();
        let mut k: usize = 0;
        while k < self.dependencies.len()
            invariant
                0 <= k <= self.dependencies.len(),
                children@ == children_among(
                    self.dependencies@.take(k as int),
                    document_id,
                    version_id,
                ),
            decreases self.dependencies.len() - k,
        {
            let edge = &self.dependencies[k];
            assert(self.dependencies@.take(k + 1).drop_last() == self.dependencies@.take(k as int));
            if edge.graph_id == document_id && edge.parent_version_id == version_id {
                children.push(edge.child_version_id);
            }
            k += 1;
        }
        assert(self.dependencies@.take(k as int) == self.dependencies@);
        children
    }

    /// The version in row `i`, with its edges.
    fn read_version(&self, i: usize) -> (version: DocumentVersion)
        requires
            i < self@.versions.len(),
        ensures
            version@ == self@.version_at(i as int),
    {
        let row = &self.versions[i];
        DocumentVersion {
            document_id: row.document_id,
            version_id: row.version_id,
            version_name: row.version_name.clone(),
            created_at: row.created_at,
            updated_at: row.updated_at,
            content: row.content.clone(),
            version_state: row.version_state,
            children: self.children_of(row.document_id, row.version_id),
            parents: self.parents_of(row.document_id, row.version_id),
        }
    }

    /// Creates a document named `document_name` with the identifier
    /// `document_id`, and its initial version `version_id`, owned by
    /// `user_id`, at the time `now`: all of it, or nothing.
    pub fn create_document_with(
        &mut self,
        roles: &mut PermissionRepository,
        document_id: Id,
        version_id: Id,
        now: Timestamp,
        document_name: String,
        user_id: Id,
        version_name: String,
        content: String,
    ) -> (result: Result<DocumentWithInitialVersion, RepoError>)
        requires
            old(self)@.wf(),
            old(roles)@.wf(),
        ensures
            final(self)@.wf(),
            final(roles)@.wf(),
            old(self)@.creates_document(
                final(self)@,
                old(roles)@,
                final(roles)@,
                result,
                user_id,
                document_id,
                version_id,
                now,
                document_name@,
                version_name@,
                content@,
            ),
    {
        if !is_valid_version_name(version_name.as_str()) {
            return Err(RepoError::InvalidRequest);
        }
        if self.find_document_named(&document_name).is_some() {
            return Err(RepoError::UniqueConflict);
        }
        if self.find_document(document_id).is_some() {
            return Err(RepoError::StoreFailure);
        }
        let document = Document { document_id, document_name: document_name.clone() };
        let row = VersionRow {
            document_id,
            version_id,
            version_name: version_name.clone(),
            created_at: now,
            updated_at: now,
            content: content.clone(),
            version_state: DocumentVersionState::InProgress,
        };
        proof {
            lemma_with_document_wf(old(self)@, document@, row@);
        }
        self.documents.push(document);
        self.versions.push(row);
        roles.grant_document_version_role(
            user_id,
            document_id,
            version_id,
            DocumentVersionRole::Owner,
        );
        assert(self@.documents == old(self)@.documents.push(document@));
        assert(self@.versions == old(self)@.versions.push(row@));
        Ok(
            DocumentWithInitialVersion {
                document: Document { document_id, document_name },
                initial_version: DocumentVersion {
                    document_id,
                    version_id,
                    version_name,
                    created_at: now,
                    updated_at: now,
                    content,
                    version_state: DocumentVersionState::InProgress,
                    children: Vec::new(),
                    parents: Vec::new(),
                },
            },
        )
    }

    /// Creates a document with its initial version, owned by `user_id`, under
    /// fresh identifiers and at the current time.
    pub fn create_document(
        &mut self,
        roles: &mut PermissionRepository,
        document_name: String,
        user_id: Id,
        version_name: String,
        content: String,
    ) -> (result: Result<DocumentWithInitialVersion, RepoError>)
        requires
            old(self)@.wf(),
            old(roles)@.wf(),
        ensures
            final(self)@.wf(),
            final(roles)@.wf(),
            exists|document_id: Id, version_id: Id, now: Timestamp| #[trigger]
                old(self)@.creates_document(
                    final(self)@,
                    old(roles)@,
                    final(roles)@,
                    result,
                    user_id,
                    document_id,
                    version_id,
                    now,
                    document_name@,
                    version_name@,
                    content@,
                ),
    {
        let document_id = fresh_id();
        let version_id = fresh_id();
        let now = current_time();
        self.create_document_with(
            roles,
            document_id,
            version_id,
            now,
            document_name,
            user_id,
            version_name,
            content,
        )
    }

    /// Creates version `version_id` of `document_id`, derived from `parents`
    /// and owned by `user_id`, at the time `now`: all of it, or nothing.
    pub fn create_version_with(
        &mut self,
        roles: &mut PermissionRepository,
        version_id: Id,
        now: Timestamp,
        user_id: Id,
        document_id: Id,
        version_name: String,
        content: String,
        parents: Vec<Id>,
    ) -> (result: Result<DocumentVersion, RepoError>)
        requires
            old(self)@.wf(),
            old(roles)@.wf(),
        ensures
            final(self)@.wf(),
            final(roles)@.wf(),
            old(self)@.creates_version(
                final(self)@,
                old(roles)@,
                final(roles)@,
                result,
                user_id,
                document_id,
                version_id,
                now,
                version_name@,
                content@,
                parents@,
            ),
    {
        if !is_valid_version_name(version_name.as_str()) || parents.len() == 0 || has_duplicates(
            &parents,
        ) {
            return Err(RepoError::InvalidRequest);
        }
        if self.find_document(document_id).is_none() {
            return Err(RepoError::NotFound);
        }
        if self.find_version_named(document_id, &version_name).is_some() {
            return Err(RepoError::UniqueConflict);
        }
        if !self.has_versions(document_id, &parents) {
            return Err(RepoError::NotFound);
        }
        if self.find_version(document_id, version_id).is_some() {
            return Err(RepoError::StoreFailure);
        }
        let row = VersionRow {
            document_id,
            version_id,
            version_name: version_name.clone(),
            created_at: now,
            updated_at: now,
            content: content.clone(),
            version_state: DocumentVersionState::InProgress,
        };
        proof {
            lemma_with_version_wf(old(self)@, row@, parents@);
        }
        self.versions.push(row);
        let mut k: usize = 0;
        while k < parents.len()
            invariant
                0 <= k <= parents.len(),
                self.documents == old(self).documents,
                self.versions@ == old(self).versions@.push(row),
                self.dependencies@ == old(self).dependencies@ + edges_to(
                    document_id,
                    version_id,
                    parents@.take(k as int),
                ),
            decreases parents.len() - k,
        {
            self.dependencies.push(
                Dependency {
                    graph_id: document_id,
                    parent_version_id: parents[k],
                    child_version_id: version_id,
                },
            );
            assert(parents@.take(k + 1) == parents@.take(k as int).push(parents@[k as int]));
            assert(edges_to(document_id, version_id, parents@.take(k + 1)) == edges_to(
                document_id,
                version_id,
                parents@.take(k as int),
            ).push(
                Dependency {
                    graph_id: document_id,
                    parent_version_id: parents@[k as int],
                    child_version_id: version_id,
                },
            ));
            k += 1;
        }
        assert(parents@.take(k as int) == parents@);
        roles.grant_document_version_role(
            user_id,
            document_id,
            version_id,
            DocumentVersionRole::Owner,
        );
        assert(self@.versions == old(self)@.versions.push(row@));
        Ok(
            DocumentVersion {
                document_id,
                version_id,
                version_name,
                created_at: now,
                updated_at: now,
                content,
                version_state: DocumentVersionState::InProgress,
                children: Vec::new(),
                parents,
            },
        )
    }

    /// Creates a version of `document_id`, derived from `parents` and owned by
    /// `user_id`, under a fresh identifier and at the current time.
    pub fn create_version(
        &mut self,
        roles: &mut PermissionRepository,
        user_id: Id,
        document_id: Id,
        version_name: String,
        content: String,
        parents: Vec<Id>,
    ) -> (result: Result<DocumentVersion, RepoError>)
        requires
            old(self)@.wf(),
            old(roles)@.wf(),
        ensures
            final(self)@.wf(),
            final(roles)@.wf(),
            exists|version_id: Id, now: Timestamp| #[trigger]
                old(self)@.creates_version(
                    final(self)@,
                    old(roles)@,
                    final(roles)@,
                    result,
                    user_id,
                    document_id,
                    version_id,
                    now,
                    version_name@,
                    content@,
                    parents@,
                ),
    {
        let version_id = fresh_id();
        let now = current_time();
        self.create_version_with(
            roles,
            version_id,
            now,
            user_id,
            document_id,
            version_name,
            content,
            parents,
        )
    }

    /// Moves version `version_id` of `document_id` to the state `new_state`
    /// at the time `now`, for a writer that last read the token `updated_at`.
    pub fn change_state_at(
        &mut self,
        document_id: Id,
        version_id: Id,
        new_state: DocumentVersionState,
        updated_at: Timestamp,
        now: Timestamp,
    ) -> (result: Result<DocumentVersion, RepoError>)
        requires
            old(self)@.wf(),
        ensures
            final(self)@.wf(),
            old(self)@.changes_state(
                final(self)@,
                result,
                document_id,
                version_id,
                new_state,
                updated_at,
                now,
            ),
            result matches Ok(updated) ==> updated.updated_at != updated_at,
    {
        let i = match self.find_version(document_id, version_id) {
            Some(i) => i,
            None => {
                return Err(RepoError::NotFound);
            },
        };
        proof {
            lemma_version_row(self@, i as int, document_id, version_id);
        }
        if self.versions[i].updated_at != updated_at {
            return Err(RepoError::ConcurrencyConflict(self.read_version(i)));
        }
        if !self.versions[i].version_state.can_enter(new_state) {
            return Err(RepoError::TransitionRejected);
        }
        let token = match renew_token(updated_at, now) {
            Some(token) => token,
            None => {
                return Err(RepoError::StoreFailure);
            },
        };
        let row = VersionRow {
            document_id,
            version_id,
            version_name: self.versions[i].version_name.clone(),
            created_at: self.versions[i].created_at,
            updated_at: token,
            content: self.versions[i].content.clone(),
            version_state: new_state,
        };
        proof {
            lemma_with_row_wf(old(self)@, i as int, row@);
        }
        self.versions.set(i, row);
        assert(self@.versions == old(self)@.versions.update(i as int, row@));
        Ok(self.read_version(i))
    }

    /// Moves version `version_id` of `document_id` to the state `new_state`
    /// at the current time, for a writer that last read the token `updated_at`.
    pub fn change_state(
        &mut self,
        document_id: Id,
        version_id: Id,
        new_state: DocumentVersionState,
        updated_at: Timestamp,
    ) -> (result: Result<DocumentVersion, RepoError>)
        requires
            old(self)@.wf(),
        ensures
            final(self)@.wf(),
            exists|now: Timestamp| #[trigger]
                old(self)@.changes_state(
                    final(self)@,
                    result,
                    document_id,
                    version_id,
                    new_state,
                    updated_at,
                    now,
                ),
            result matches Ok(updated) ==> updated.updated_at != updated_at,
    {
        let now = current_time();
        self.change_state_at(document_id, version_id, new_state, updated_at, now)
    }

    /// Replaces the content of version `version_id` of `document_id` at the
    /// time `now`, for a writer that last read the token `updated_at`.
    pub fn update_version_at(
        &mut self,
        document_id: Id,
        version_id: Id,
        content: String,
        updated_at: Timestamp,
        now: Timestamp,
    ) -> (result: Result<DocumentVersion, RepoError>)
        requires
            old(self)@.wf(),
        ensures
            final(self)@.wf(),
            old(self)@.updates_content(
                final(self)@,
                result,
                document_id,
                version_id,
                content@,
                updated_at,
                now,
            ),
            result matches Ok(updated) ==> updated.updated_at != updated_at,
    {
        let i = match self.find_version(document_id, version_id) {
            Some(i) => i,
            None => {
                return Err(RepoError::NotFound);
            },
        };
        proof {
            lemma_version_row(self@, i as int, document_id, version_id);
        }
        if self.versions[i].updated_at != updated_at {
            return Err(RepoError::ConcurrencyConflict(self.read_version(i)));
        }
        match self.versions[i].version_state {
            DocumentVersionState::InProgress => {},
            _ => {
                return Err(RepoError::TransitionRejected);
            },
        }
        let token = match renew_token(updated_at, now) {
            Some(token) => token,
            None => {
                return Err(RepoError::StoreFailure);
            },
        };
        let row = VersionRow {
            document_id,
            version_id,
            version_name: self.versions[i].version_name.clone(),
            created_at: self.versions[i].created_at,
            updated_at: token,
            content,
            version_state: DocumentVersionState::InProgress,
        };
        proof {
            lemma_with_row_wf(old(self)@, i as int, row@);
        }
        self.versions.set(i, row);
        assert(self@.versions == old(self)@.versions.update(i as int, row@));
        Ok(self.read_version(i))
    }

    /// Replaces the content of version `version_id` of `document_id` at the
    /// current time, for a writer that last read the token `updated_at`.
    pub fn update_version(
        &mut self,
        document_id: Id,
        version_id: Id,
        content: String,
        updated_at: Timestamp,
    ) -> (result: Result<DocumentVersion, RepoError>)
        requires
            old(self)@.wf(),
        ensures
            final(self)@.wf(),
            exists|now: Timestamp| #[trigger]
                old(self)@.updates_content(
                    final(self)@,
                    result,
                    document_id,
                    version_id,
                    content@,
                    updated_at,
                    now,
                ),
            result matches Ok(updated) ==> updated.updated_at != updated_at,
    {
        let now = current_time();
        self.update_version_at(document_id, version_id, content, updated_at, now)
    }

    /// Renames the document `document_id` to `document_name`. Returns `false`,
    /// and changes nothing, where there is no such document.
    pub fn update_document(&mut self, document_id: Id, document_name: String) -> (result: Result<
        bool,
        RepoError,
    >)
        requires
            old(self)@.wf(),
        ensures
            final(self)@.wf(),
            old(self)@.renames(final(self)@, result, document_id, document_name@),
    {
        let i = match self.find_document(document_id) {
            Some(i) => i,
            None => {
                return Ok(false);
            },
        };
        proof {
            lemma_document_row(self@, i as int, document_id);
        }
        match self.find_document_named(&document_name) {
            Some(j) => {
                if j != i {
                    assert(self@.documents[j as int].document_name == document_name@);
                    return Err(RepoError::UniqueConflict);
                }
            },
            None => {},
        }
        proof {
            assert forall|j: int| 0 <= j < self@.documents.len() && j != i implies (
            #[trigger] self@.documents[j]).document_name != document_name@ by {
                if self@.documents[j].document_name == document_name@ {
                    assert(self@.is_document_named(j, document_name@));
                    if self@.documents[i as int].document_name == document_name@ {
                        assert(self@.documents[j].document_name
                            == self@.documents[i as int].document_name);
                    }
                }
            }
            lemma_with_name_wf(self@, i as int, document_name@);
        }
        let renamed = Document { document_id, document_name };
        self.documents.set(i, renamed);
        assert(self@.documents == old(self)@.documents.update(i as int, renamed@));
        Ok(true)
    }

    /// The version `version_id` of `document_id`, for a user that holds a role on it.
    pub fn get_version(
        &self,
        roles: &PermissionRepository,
        user_id: Id,
        document_id: Id,
        version_id: Id,
    ) -> (result: Result<DocumentVersion, RepoError>)
        requires
            self@.wf(),
        ensures
            self@.reads_version(roles@, result, user_id, document_id, version_id),
    {
        if !roles.has_any_role(user_id, document_id, version_id) {
            return Err(RepoError::Forbidden);
        }
        match self.find_version(document_id, version_id) {
            Some(i) => {
                proof {
                    lemma_version_row(self@, i as int, document_id, version_id);
                }
                Ok(self.read_version(i))
            },
            None => Err(RepoError::NotFound),
        }
    }

    /// The versions of `document_id` on which `user_id` holds a role, oldest first.
    pub fn get_versions(&self, roles: &PermissionRepository, user_id: Id, document_id: Id) -> (listed:
        Vec<DocumentVersion>)
        ensures
            exists|rows: Seq<int>| #[trigger]
                self@.lists_versions(roles@, user_id, document_id, rows, listed@),
    {
        let mut listed: Vec<DocumentVersion> = Vec::new();
        let ghost mut rows: Seq<int> = Seq::empty();
        let mut i: usize = 0;
        while i < self.versions.len()
            invariant
                0 <= i <= self.versions.len(),
                rows.len() == listed@.len(),
                forall|k: int|
                    0 <= k < rows.len() ==> self@.is_visible(
                        roles@,
                        user_id,
                        document_id,
                        #[trigger] rows[k],
                    ) && rows[k] < i && listed@[k]@ == self@.version_at(rows[k]),
                forall|j: int|
                    0 <= j < i && self@.is_visible(roles@, user_id, document_id, j)
                        ==> #[trigger] rows.contains(j),
                forall|a: int, b: int|
                    0 <= a < b < rows.len() ==> #[trigger] self@.listed_before(rows[a], rows[b]),
            decreases self.versions.len() - i,
        {
            if self.versions[i].document_id == document_id && roles.has_any_role(
                user_id,
                document_id,
                self.versions[i].version_id,
            ) {
                let version = self.read_version(i);
                let created_at = self.versions[i].created_at;
                let mut at: usize = 0;
                while at < listed.len() && listed[at].created_at <= created_at
                    invariant
                        0 <= at <= listed@.len(),
                        forall|k: int| 0 <= k < at ==> (#[trigger] listed@[k]).created_at <= created_at,
                    decreases listed@.len() - at,
                {
                    at += 1;
                }
                let ghost before = rows;
                let ghost listed_before = listed@;
                listed.insert(at, version);
                proof {
                    rows = before.insert(at as int, i as int);
                    assert forall|k: int| 0 <= k < rows.len() implies self@.is_visible(
                        roles@,
                        user_id,
                        document_id,
                        #[trigger] rows[k],
                    ) && rows[k] < i + 1 && listed@[k]@ == self@.version_at(rows[k]) by {
                        if k < at {
                            assert(rows[k] == before[k]);
                            assert(listed@[k] == listed_before[k]);
                        } else if k > at {
                            assert(rows[k] == before[k - 1]);
                            assert(listed@[k] == listed_before[k - 1]);
                        }
                    }
                    assert forall|j: int|
                        0 <= j < i + 1 && self@.is_visible(
                            roles@,
                            user_id,
                            document_id,
                            j,
                        ) implies #[trigger] rows.contains(j) by {
                        if j < i {
                            assert(before.contains(j));
                            let k = choose|k: int| 0 <= k < before.len() && before[k] == j;
                            if k < at {
                                assert(rows[k] == j);
                            } else {
                                assert(rows[k + 1] == j);
                            }
                        } else {
                            assert(rows[at as int] == j);
                        }
                    }
                    assert forall|a: int, b: int| 0 <= a < b < rows.len() implies #[trigger]
                        self@.listed_before(rows[a], rows[b]) by {
                        let from_a = if a < at { a } else { a - 1 };
                        let from_b = if b < at { b } else { b - 1 };
                        if a != at && b != at {
                            assert(rows[a] == before[from_a]);
                            assert(rows[b] == before[from_b]);
                            assert(self@.listed_before(before[from_a], before[from_b]));
                        } else if a == at {
                            assert(rows[b] == before[b - 1]);
                            assert(listed_before[b - 1]@ == self@.version_at(before[b - 1]));
                            if b - 1 > at {
                                assert(self@.listed_before(before[at as int], before[b - 1]));
                                assert(listed_before[at as int]@ == self@.version_at(
                                    before[at as int],
                                ));
                            }
                        } else {
                            assert(rows[a] == before[a]);
                            assert(listed_before[a]@ == self@.version_at(before[a]));
                        }
                    }
                }
            }
            i += 1;
        }
        assert(self@.lists_versions(roles@, user_id, document_id, rows, listed@));
        listed
    }

    /// The document `document_id`, for a user that holds a role on one of its versions.
    pub fn get_document(&self, roles: &PermissionRepository, user_id: Id, document_id: Id) -> (result:
        Result<Document, RepoError>)
        requires
            self@.wf(),
        ensures
            self@.reads_document(roles@, result, user_id, document_id),
    {
        match self.find_document(document_id) {
            Some(i) => {
                proof {
                    lemma_document_row(self@, i as int, document_id);
                }
                if roles.has_role_in_document(user_id, document_id) {
                    Ok(self.documents[i].duplicate())
                } else {
                    Err(RepoError::Forbidden)
                }
            },
            None => Err(RepoError::Forbidden),
        }
    }

    /// The documents on some version of which `user_id` holds a role, in the
    /// order of their creation.
    pub fn get_documents(&self, roles: &PermissionRepository, user_id: Id) -> (listed: Vec<Document>)
        ensures
            listed@.map_values(|document: Document| document@) == documents_visible_among(
                self@.documents,
                roles@,
                user_id,
            ),
    {
        let mut listed: Vec<Document> = Vec::new();
        let mut i: usize = 0;
        while i < self.documents.len()
            invariant
                0 <= i <= self.documents.len(),
                listed@.map_values(|document: Document| document@) == documents_visible_among(
                    self@.documents.take(i as int),
                    roles@,
                    user_id,
                ),
            decreases self.documents.len() - i,
        {
            assert(self@.documents.take(i + 1).drop_last() == self@.documents.take(i as int));
            let ghost before = listed@.map_values(|document: Document| document@);
            if roles.has_role_in_document(user_id, self.documents[i].document_id) {
                let document = self.documents[i].duplicate();
                listed.push(document);
                assert(listed@.map_values(|document: Document| document@) == before.push(
                    document@,
                ));
            }
            i += 1;
        }
        assert(self@.documents.take(i as int) == self@.documents);
        listed
    }

    /// Attaches the file `file_id` to version `version_id` of `document_id`.
    /// The file's record and the attachment are kept by the file store.
    pub fn attach_file(
        &self,
        files: &mut FilesRepository,
        document_id: Id,
        version_id: Id,
        file_id: Id,
    ) -> (result: Result<bool, RepoError>)
        requires
            old(files)@.wf(),
        ensures
            final(files)@.wf(),
            old(files)@.attaches(
                final(files)@,
                self@,
                result,
                Attachment { document_id, version_id, file_id },
            ),
    {
        files.attach_file(self, document_id, version_id, file_id)
    }

    /// Detaches the file `file_id` from version `version_id` of
    /// `document_id`. Returns `false`, and changes nothing, where it is not
    /// attached.
    pub fn detach_file(
        &self,
        files: &mut FilesRepository,
        document_id: Id,
        version_id: Id,
        file_id: Id,
    ) -> (detached: bool)
        requires
            old(files)@.wf(),
        ensures
            final(files)@.wf(),
            old(files)@.detaches(
                final(files)@,
                detached,
                Attachment { document_id, version_id, file_id },
            ),
    {
        files.detach_file(document_id, version_id, file_id)
    }

    /// The files attached to version `version_id` of `document_id`, for a
    /// user that holds a role on it; for any other user, none.
    pub fn get_file_attachments(
        &self,
        roles: &PermissionRepository,
        files: &FilesRepository,
        user_id: Id,
        document_id: Id,
        version_id: Id,
    ) -> (attached: Vec<File>)
        requires
            files@.wf(),
        ensures
            attached@.map_values(|file: File| file@) == files@.attached_for(
                roles@,
                user_id,
                document_id,
                version_id,
            ),
    {
        files.get_file_attachments(roles, user_id, document_id, version_id)
    }

    /// The file `file_id` as attached to version `version_id` of
    /// `document_id`, for a user that holds a role on that version.
    pub fn get_file_attachment(
        &self,
        roles: &PermissionRepository,
        files: &FilesRepository,
        user_id: Id,
        document_id: Id,
        version_id: Id,
        file_id: Id,
    ) -> (result: Result<File, RepoError>)
        requires
            files@.wf(),
        ensures
            files@.reads_attachment(
                roles@,
                result,
                user_id,
                Attachment { document_id, version_id, file_id },
            ),
    {
        files.get_file_attachment(roles, user_id, document_id, version_id, file_id)
    }
}

} // verus!
