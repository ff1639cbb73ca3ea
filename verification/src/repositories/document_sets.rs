//! The document set store: document sets, their versions, the edges between
//! the versions of a set, and the document versions that each set version
//! bundles.
//!
//! A set's versions form a graph as a document's do. What a set version
//! bundles may change after its creation: sets have no lifecycle.

use vstd::prelude::*;

use crate::ident::{current_time, fresh_id, Id, Timestamp};
use crate::models::document_set::{DocumentSet, DocumentSetView, DocumentSetWithInitialVersion};
use crate::models::set_version::{SetVersion, SetVersionView};
use crate::models::version::{is_valid_version_name, is_version_name};
use crate::repositories::documents::{has_duplicates, DocumentsRepository, DocumentsState};
use crate::repositories::graph::{children_among, edges_to, parents_among, Dependency};
use crate::repositories::RepoError;

verus! {

/// A version of a document set as stored: everything but its elements and edges.
#[derive(Debug)]
pub struct SetVersionRow {
    pub document_set_id: Id,
    pub set_version_id: Id,
    pub set_version_name: String,
    pub created_at: Timestamp,
}

/// What a `SetVersionRow` holds, as plain mathematical values.
pub struct SetVersionRecord {
    pub document_set_id: Id,
    pub set_version_id: Id,
    pub set_version_name: Seq<char>,
    pub created_at: Timestamp,
}

impl View for SetVersionRow {
    type V = SetVersionRecord;

    open spec fn view(&self) -> SetVersionRecord {
        SetVersionRecord {
            document_set_id: self.document_set_id,
            set_version_id: self.set_version_id,
            set_version_name: self.set_version_name@,
            created_at: self.created_at,
        }
    }
}

/// One document version bundled by one version of a document set.
#[derive(Debug, Clone, Copy, PartialEq, Eq, Structural)]
pub struct SetElement {
    pub document_set_id: Id,
    pub set_version_id: Id,
    pub document_id: Id,
    pub version_id: Id,
}

/// The document versions that version `set_version_id` of `document_set_id`
/// bundles among `elements`, in the order in which they were recorded.
pub open spec fn elements_among(
    elements: Seq<SetElement>,
    document_set_id: Id,
    set_version_id: Id,
) -> Seq<(Id, Id)>
    decreases elements.len(),
{
    if elements.len() == 0 {
        Seq::empty()
    } else {
        let earlier = elements_among(elements.drop_last(), document_set_id, set_version_id);
        let element = elements.last();
        if element.document_set_id == document_set_id && element.set_version_id
            == set_version_id {
            earlier.push((element.document_id, element.version_id))
        } else {
            earlier
        }
    }
}

/// The elements that make `members` part of version `set_version_id` of
/// `document_set_id`, in their order.
pub open spec fn elements_for(
    document_set_id: Id,
    set_version_id: Id,
    members: Seq<(Id, Id)>,
) -> Seq<SetElement> {
    Seq::new(
        members.len(),
        |k: int|
            SetElement {
                document_set_id,
                set_version_id,
                document_id: members[k].0,
                version_id: members[k].1,
            },
    )
}

/// Every one of `members` is a version of a document in `documents`.
pub open spec fn refers_to_versions(documents: DocumentsState, members: Seq<(Id, Id)>) -> bool {
    forall|k: int|
        0 <= k < members.len() ==> documents.has_version(
            (#[trigger] members[k]).0,
            members[k].1,
        )
}

/// The rows of the document set store, oldest first.
pub struct SetsState {
    pub sets: Seq<DocumentSetView>,
    pub versions: Seq<SetVersionRecord>,
    pub dependencies: Seq<Dependency>,
    pub elements: Seq<SetElement>,
}

impl SetsState {
    /// Row `i` is the document `document_set_id`.
    pub open spec fn is_set(self, i: int, document_set_id: Id) -> bool {
        0 <= i < self.sets.len() && self.sets[i].document_set_id == document_set_id
    }

    /// Row `i` is the document set named `name`.
    pub open spec fn is_set_named(self, i: int, name: Seq<char>) -> bool {
        0 <= i < self.sets.len() && self.sets[i].document_set_name == name
    }

    /// The document `document_set_id` exists.
    pub open spec fn has_set(self, document_set_id: Id) -> bool {
        exists|i: int| self.is_set(i, document_set_id)
    }

    /// Some document set is named `name`.
    pub open spec fn has_set_named(self, name: Seq<char>) -> bool {
        exists|i: int| self.is_set_named(i, name)
    }

    /// The row of the document `document_set_id`, where it exists.
    pub open spec fn set_row(self, document_set_id: Id) -> int {
        choose|i: int| self.is_set(i, document_set_id)
    }

    /// Row `i` is version `set_version_id` of `document_set_id`.
    pub open spec fn is_version(self, i: int, document_set_id: Id, set_version_id: Id) -> bool {
        0 <= i < self.versions.len() && self.versions[i].document_set_id == document_set_id
            && self.versions[i].set_version_id == set_version_id
    }

    /// Row `i` is the version of `document_set_id` named `name`.
    pub open spec fn is_version_named(self, i: int, document_set_id: Id, name: Seq<char>) -> bool {
        0 <= i < self.versions.len() && self.versions[i].document_set_id == document_set_id
            && self.versions[i].set_version_name == name
    }

    /// Version `set_version_id` of `document_set_id` exists.
    pub open spec fn has_version(self, document_set_id: Id, set_version_id: Id) -> bool {
        exists|i: int| self.is_version(i, document_set_id, set_version_id)
    }

    /// Some version of `document_set_id` is named `name`.
    pub open spec fn has_version_named(self, document_set_id: Id, name: Seq<char>) -> bool {
        exists|i: int| self.is_version_named(i, document_set_id, name)
    }

    /// The row of version `set_version_id` of `document_set_id`, where it exists.
    pub open spec fn version_row(self, document_set_id: Id, set_version_id: Id) -> int {
        choose|i: int| self.is_version(i, document_set_id, set_version_id)
    }

    /// Edge `k` leads from version `set_version_id` of `document_set_id` to a parent.
    pub open spec fn is_parent_edge(self, k: int, document_set_id: Id, set_version_id: Id) -> bool {
        0 <= k < self.dependencies.len() && self.dependencies[k].graph_id == document_set_id
            && self.dependencies[k].child_version_id == set_version_id
    }

    /// Version `set_version_id` of `document_set_id` derives from some version.
    pub open spec fn has_parent(self, document_set_id: Id, set_version_id: Id) -> bool {
        exists|k: int| self.is_parent_edge(k, document_set_id, set_version_id)
    }

    /// No row before `i` belongs to the document set of row `i`: row `i` is the
    /// initial version of its document set.
    pub open spec fn is_initial(self, i: int) -> bool {
        forall|j: int|
            0 <= j < i ==> (#[trigger] self.versions[j]).document_set_id
                != self.versions[i].document_set_id
    }

    /// Both ends of edge `k` are versions of the edge's document set, and the
    /// parent is the older of the two.
    pub open spec fn edge_grounded(self, k: int) -> bool {
        exists|p: int, c: int|
            p < c && #[trigger] self.is_version(
                p,
                self.dependencies[k].graph_id,
                self.dependencies[k].parent_version_id,
            ) && #[trigger] self.is_version(
                c,
                self.dependencies[k].graph_id,
                self.dependencies[k].child_version_id,
            )
    }

    /// The parents of version `set_version_id` of `document_set_id`.
    pub open spec fn parents_of(self, document_set_id: Id, set_version_id: Id) -> Seq<Id> {
        parents_among(self.dependencies, document_set_id, set_version_id)
    }

    /// The children of version `set_version_id` of `document_set_id`.
    pub open spec fn children_of(self, document_set_id: Id, set_version_id: Id) -> Seq<Id> {
        children_among(self.dependencies, document_set_id, set_version_id)
    }

    /// The document versions bundled by version `set_version_id` of `document_set_id`.
    pub open spec fn elements_of(self, document_set_id: Id, set_version_id: Id) -> Seq<(Id, Id)> {
        elements_among(self.elements, document_set_id, set_version_id)
    }

    /// No element is recorded for version `set_version_id` of `document_set_id`.
    pub open spec fn has_no_elements(self, document_set_id: Id, set_version_id: Id) -> bool {
        forall|e: int|
            0 <= e < self.elements.len() ==> !((#[trigger] self.elements[e]).document_set_id
                == document_set_id && self.elements[e].set_version_id == set_version_id)
    }

    /// The version in row `i`, with its elements and edges.
    pub open spec fn version_at(self, i: int) -> SetVersionView {
        let row = self.versions[i];
        SetVersionView {
            document_set_id: row.document_set_id,
            set_version_id: row.set_version_id,
            set_version_name: row.set_version_name,
            created_at: row.created_at,
            document_version_ids: self.elements_of(row.document_set_id, row.set_version_id),
            children: self.children_of(row.document_set_id, row.set_version_id),
            parents: self.parents_of(row.document_set_id, row.set_version_id),
        }
    }

    /// The invariant of the store.
    ///
    /// Document sets differ in identifier and in name. Versions differ in
    /// (set, identifier) and in (set, name), belong to a document set
    /// that exists, and are named by dotted numerals. Every edge joins two
    /// versions of one document set, the parent older than the child. A version
    /// has no parent exactly if it is the initial version of its document set.
    /// Every element belongs to a version that exists, and is recorded once.
    pub open spec fn wf(self) -> bool {
        &&& self.graph_wf()
        &&& forall|e: int|
            0 <= e < self.elements.len() ==> self.has_version(
                (#[trigger] self.elements[e]).document_set_id,
                self.elements[e].set_version_id,
            )
        &&& self.elements.no_duplicates()
    }

    /// The part of the invariant that speaks of sets, versions and edges.
    pub open spec fn graph_wf(self) -> bool {
        &&& forall|i: int, j: int|
            #![trigger self.sets[i], self.sets[j]]
            0 <= i < self.sets.len() && 0 <= j < self.sets.len()
                && self.sets[i].document_set_id == self.sets[j].document_set_id ==> i == j
        &&& forall|i: int, j: int|
            #![trigger self.sets[i], self.sets[j]]
            0 <= i < self.sets.len() && 0 <= j < self.sets.len()
                && self.sets[i].document_set_name == self.sets[j].document_set_name ==> i == j
        &&& forall|i: int, j: int|
            #![trigger self.versions[i], self.versions[j]]
            0 <= i < self.versions.len() && 0 <= j < self.versions.len()
                && self.versions[i].document_set_id == self.versions[j].document_set_id
                && self.versions[i].set_version_id == self.versions[j].set_version_id ==> i == j
        &&& forall|i: int, j: int|
            #![trigger self.versions[i], self.versions[j]]
            0 <= i < self.versions.len() && 0 <= j < self.versions.len()
                && self.versions[i].document_set_id == self.versions[j].document_set_id
                && self.versions[i].set_version_name == self.versions[j].set_version_name ==> i == j
        &&& forall|i: int|
            0 <= i < self.versions.len() ==> self.has_set(
                (#[trigger] self.versions[i]).document_set_id,
            ) && is_version_name(self.versions[i].set_version_name)
        &&& forall|k: int| 0 <= k < self.dependencies.len() ==> #[trigger] self.edge_grounded(k)
        &&& forall|i: int|
            0 <= i < self.versions.len() ==> (#[trigger] self.is_initial(i) <==> !self.has_parent(
                self.versions[i].document_set_id,
                self.versions[i].set_version_id,
            ))
    }

    /// The store with the document set `set` and its initial version `initial`.
    pub open spec fn with_set(self, set: DocumentSetView, initial: SetVersionRecord) -> SetsState {
        SetsState {
            sets: self.sets.push(set),
            versions: self.versions.push(initial),
            dependencies: self.dependencies,
            elements: self.elements,
        }
    }

    /// The store with the version `version`, derived from `parents`.
    pub open spec fn with_version(self, version: SetVersionRecord, parents: Seq<Id>) -> SetsState {
        SetsState {
            sets: self.sets,
            versions: self.versions.push(version),
            dependencies: self.dependencies + edges_to(
                version.document_set_id,
                version.set_version_id,
                parents,
            ),
            elements: self.elements,
        }
    }

    /// The store with `members` recorded as elements of version
    /// `set_version_id` of `document_set_id`.
    pub open spec fn with_elements(
        self,
        document_set_id: Id,
        set_version_id: Id,
        members: Seq<(Id, Id)>,
    ) -> SetsState {
        SetsState {
            elements: self.elements + elements_for(document_set_id, set_version_id, members),
            ..self
        }
    }

    /// The store with one more element.
    pub open spec fn with_element(self, element: SetElement) -> SetsState {
        SetsState { elements: self.elements.push(element), ..self }
    }

    /// The store with `element` taken out.
    pub open spec fn without_element(self, element: SetElement) -> SetsState {
        SetsState { elements: self.elements.remove(self.elements.index_of(element)), ..self }
    }
}


/// The record of a version of a document set created at the time `now`.
pub open spec fn new_set_record(
    document_set_id: Id,
    set_version_id: Id,
    set_version_name: Seq<char>,
    now: Timestamp,
) -> SetVersionRecord {
    SetVersionRecord { document_set_id, set_version_id, set_version_name, created_at: now }
}

/// The view of a version of a document set fresh from creation: without children.
pub open spec fn created_set_view(
    document_set_id: Id,
    set_version_id: Id,
    set_version_name: Seq<char>,
    members: Seq<(Id, Id)>,
    parents: Seq<Id>,
    now: Timestamp,
) -> SetVersionView {
    SetVersionView {
        document_set_id,
        set_version_id,
        set_version_name,
        created_at: now,
        document_version_ids: members,
        children: Seq::empty(),
        parents,
    }
}

impl SetsState {
    /// Every one of `parents` is a version of `document_set_id`.
    pub open spec fn has_versions(self, document_set_id: Id, parents: Seq<Id>) -> bool {
        forall|k: int|
            0 <= k < parents.len() ==> self.has_version(document_set_id, #[trigger] parents[k])
    }

    /// Why a document set cannot be created, if it cannot: its first version's
    /// name is no version name or it bundles a document version twice; its
    /// display name is taken; a bundled document version does not exist; or
    /// its identifier is in use.
    pub open spec fn set_refusal(
        self,
        documents: DocumentsState,
        document_set_id: Id,
        document_set_name: Seq<char>,
        set_version_name: Seq<char>,
        members: Seq<(Id, Id)>,
    ) -> Option<RepoError> {
        if !is_version_name(set_version_name) || !members.no_duplicates() {
            Some(RepoError::InvalidRequest)
        } else if self.has_set_named(document_set_name) {
            Some(RepoError::UniqueConflict)
        } else if !refers_to_versions(documents, members) {
            Some(RepoError::NotFound)
        } else if self.has_set(document_set_id) {
            Some(RepoError::StoreFailure)
        } else {
            None
        }
    }

    /// Why a version of a document set cannot be created, if it cannot: the
    /// request names no version name, no parent, a parent twice or a document
    /// version twice; the set, a parent or a bundled document version does
    /// not exist; the name is taken within the set; or the identifier is in
    /// use.
    pub open spec fn version_refusal(
        self,
        documents: DocumentsState,
        document_set_id: Id,
        set_version_id: Id,
        set_version_name: Seq<char>,
        members: Seq<(Id, Id)>,
        parents: Seq<Id>,
    ) -> Option<RepoError> {
        if !is_version_name(set_version_name) || parents.len() == 0 || !parents.no_duplicates()
            || !members.no_duplicates() {
            Some(RepoError::InvalidRequest)
        } else if !self.has_set(document_set_id) {
            Some(RepoError::NotFound)
        } else if self.has_version_named(document_set_id, set_version_name) {
            Some(RepoError::UniqueConflict)
        } else if !self.has_versions(document_set_id, parents) || !refers_to_versions(
            documents,
            members,
        ) {
            Some(RepoError::NotFound)
        } else if self.has_version(document_set_id, set_version_id) {
            Some(RepoError::StoreFailure)
        } else {
            None
        }
    }

    /// What creating a document set does: where nothing stands in the way,
    /// the set and its initial version are recorded, the version bundling
    /// `members`, without parents or children; otherwise nothing changes.
    pub open spec fn creates_set(
        self,
        after: SetsState,
        documents: DocumentsState,
        result: Result<DocumentSetWithInitialVersion, RepoError>,
        document_set_id: Id,
        set_version_id: Id,
        now: Timestamp,
        document_set_name: Seq<char>,
        set_version_name: Seq<char>,
        members: Seq<(Id, Id)>,
    ) -> bool {
        match self.set_refusal(
            documents,
            document_set_id,
            document_set_name,
            set_version_name,
            members,
        ) {
            Some(error) => result == Err::<DocumentSetWithInitialVersion, RepoError>(error)
                && after == self,
            None => {
                &&& after == self.with_set(
                    DocumentSetView { document_set_id, document_set_name },
                    new_set_record(document_set_id, set_version_id, set_version_name, now),
                ).with_elements(document_set_id, set_version_id, members)
                &&& result matches Ok(created)
                &&& created.document_set@ == (DocumentSetView {
                    document_set_id,
                    document_set_name,
                })
                &&& created.initial_version@ == created_set_view(
                    document_set_id,
                    set_version_id,
                    set_version_name,
                    members,
                    Seq::empty(),
                    now,
                )
            },
        }
    }

    /// What creating a version of a document set does: where nothing stands
    /// in the way, the version is recorded with one edge to each parent,
    /// bundling `members`, without children; otherwise nothing changes.
    pub open spec fn creates_version(
        self,
        after: SetsState,
        documents: DocumentsState,
        result: Result<SetVersion, RepoError>,
        document_set_id: Id,
        set_version_id: Id,
        now: Timestamp,
        set_version_name: Seq<char>,
        members: Seq<(Id, Id)>,
        parents: Seq<Id>,
    ) -> bool {
        match self.version_refusal(
            documents,
            document_set_id,
            set_version_id,
            set_version_name,
            members,
            parents,
        ) {
            Some(error) => result == Err::<SetVersion, RepoError>(error) && after == self,
            None => {
                &&& after == self.with_version(
                    new_set_record(document_set_id, set_version_id, set_version_name, now),
                    parents,
                ).with_elements(document_set_id, set_version_id, members)
                &&& result matches Ok(created)
                &&& created@ == created_set_view(
                    document_set_id,
                    set_version_id,
                    set_version_name,
                    members,
                    parents,
                    now,
                )
            },
        }
    }

    /// What adding `element` does: `NotFound` where the set version or the
    /// document version does not exist; nothing, reported as `false`, where
    /// the set version bundles the document version already; else the element
    /// is recorded.
    pub open spec fn adds_element(
        self,
        after: SetsState,
        documents: DocumentsState,
        result: Result<bool, RepoError>,
        element: SetElement,
    ) -> bool {
        if !self.has_version(element.document_set_id, element.set_version_id)
            || !documents.has_version(element.document_id, element.version_id) {
            result == Err::<bool, RepoError>(RepoError::NotFound) && after == self
        } else if self.elements.contains(element) {
            result == Ok::<bool, RepoError>(false) && after == self
        } else {
            result == Ok::<bool, RepoError>(true) && after == self.with_element(element)
        }
    }

    /// What removing `element` does: nothing, reported as `false`, where it
    /// is not recorded; else it is taken out.
    pub open spec fn removes_element(self, after: SetsState, removed: bool, element: SetElement) -> bool {
        if self.elements.contains(element) {
            removed && after == self.without_element(element)
        } else {
            !removed && after == self
        }
    }

    /// Row `a` is listed before row `b`: it was created earlier, or at the
    /// same time and recorded earlier.
    pub open spec fn listed_before(self, a: int, b: int) -> bool {
        self.versions[a].created_at < self.versions[b].created_at || (self.versions[a].created_at
            == self.versions[b].created_at && a < b)
    }

    /// `listed` is the versions of `document_set_id`: those in `rows`, which
    /// are all of them, each once, oldest first.
    pub open spec fn lists_versions(
        self,
        document_set_id: Id,
        rows: Seq<int>,
        listed: Seq<SetVersion>,
    ) -> bool {
        &&& rows.len() == listed.len()
        &&& forall|k: int|
            0 <= k < rows.len() ==> 0 <= #[trigger] rows[k] < self.versions.len()
                && self.versions[rows[k]].document_set_id == document_set_id && listed[k]@
                == self.version_at(rows[k])
        &&& forall|i: int|
            0 <= i < self.versions.len() && self.versions[i].document_set_id == document_set_id
                ==> #[trigger] rows.contains(i)
        &&& forall|a: int, b: int|
            0 <= a < b < rows.len() ==> #[trigger] self.listed_before(rows[a], rows[b])
    }
}

/// In a well-formed store a version has one row only.
pub proof fn lemma_version_row(state: SetsState, i: int, document_set_id: Id, set_version_id: Id)
    requires
        state.wf(),
        state.is_version(i, document_set_id, set_version_id),
    ensures
        state.has_version(document_set_id, set_version_id),
        state.version_row(document_set_id, set_version_id) == i,
{
    let row = state.version_row(document_set_id, set_version_id);
    assert(state.is_version(row, document_set_id, set_version_id));
    assert(state.versions[row].set_version_id == state.versions[i].set_version_id);
}

/// A document set that does not exist has neither versions nor edges.
pub proof fn lemma_nothing_of_missing_set(state: SetsState, document_set_id: Id)
    requires
        state.wf(),
        !state.has_set(document_set_id),
    ensures
        forall|i: int|
            0 <= i < state.versions.len() ==> (#[trigger] state.versions[i]).document_set_id
                != document_set_id,
        forall|k: int|
            0 <= k < state.dependencies.len() ==> (#[trigger] state.dependencies[k]).graph_id
                != document_set_id,
        forall|e: int|
            0 <= e < state.elements.len() ==> (#[trigger] state.elements[e]).document_set_id
                != document_set_id,
{
    assert forall|e: int| 0 <= e < state.elements.len() implies (
    #[trigger] state.elements[e]).document_set_id != document_set_id by {
        let element = state.elements[e];
        assert(state.has_version(element.document_set_id, element.set_version_id));
        let row = state.version_row(element.document_set_id, element.set_version_id);
        assert(state.is_version(row, element.document_set_id, element.set_version_id));
    }
    assert forall|k: int| 0 <= k < state.dependencies.len() implies (
    #[trigger] state.dependencies[k]).graph_id != document_set_id by {
        assert(state.edge_grounded(k));
    }
}

/// Recording a new document set with its initial version keeps the store
/// well-formed, and the initial version has no parent.
pub proof fn lemma_with_set_wf(
    state: SetsState,
    set: DocumentSetView,
    initial: SetVersionRecord,
)
    requires
        state.wf(),
        !state.has_set(set.document_set_id),
        !state.has_set_named(set.document_set_name),
        initial.document_set_id == set.document_set_id,
        is_version_name(initial.set_version_name),
    ensures
        state.with_set(set, initial).wf(),
        state.with_set(set, initial).is_initial(state.versions.len() as int),
        !state.with_set(set, initial).has_parent(
            initial.document_set_id,
            initial.set_version_id,
        ),
{
    let after = state.with_set(set, initial);
    let n = state.versions.len() as int;
    let m = state.sets.len() as int;
    lemma_nothing_of_missing_set(state, set.document_set_id);
    assert forall|i: int, j: int|
        #![trigger after.sets[i], after.sets[j]]
        0 <= i < after.sets.len() && 0 <= j < after.sets.len()
            && after.sets[i].document_set_id == after.sets[j].document_set_id implies i
        == j by {
        if i < m {
            assert(!state.is_set(i, set.document_set_id));
        }
        if j < m {
            assert(!state.is_set(j, set.document_set_id));
        }
    }
    assert forall|i: int, j: int|
        #![trigger after.sets[i], after.sets[j]]
        0 <= i < after.sets.len() && 0 <= j < after.sets.len()
            && after.sets[i].document_set_name == after.sets[j].document_set_name implies i
        == j by {
        if i < m {
            assert(!state.is_set_named(i, set.document_set_name));
        }
        if j < m {
            assert(!state.is_set_named(j, set.document_set_name));
        }
    }
    assert forall|i: int| 0 <= i < after.versions.len() implies after.has_set(
        (#[trigger] after.versions[i]).document_set_id,
    ) && is_version_name(after.versions[i].set_version_name) by {
        if i < n {
            let row = state.set_row(state.versions[i].document_set_id);
            assert(state.is_set(row, state.versions[i].document_set_id));
            assert(after.is_set(row, after.versions[i].document_set_id));
        } else {
            assert(after.is_set(m, set.document_set_id));
        }
    }
    assert forall|k: int| 0 <= k < after.dependencies.len() implies #[trigger] after.edge_grounded(
        k,
    ) by {
        assert(state.edge_grounded(k));
        let edge = state.dependencies[k];
        let (p, c) = choose|p: int, c: int|
            p < c && #[trigger] state.is_version(p, edge.graph_id, edge.parent_version_id)
                && #[trigger] state.is_version(c, edge.graph_id, edge.child_version_id);
        assert(after.is_version(p, edge.graph_id, edge.parent_version_id));
        assert(after.is_version(c, edge.graph_id, edge.child_version_id));
    }
    assert forall|e: int| 0 <= e < after.elements.len() implies after.has_version(
        (#[trigger] after.elements[e]).document_set_id,
        after.elements[e].set_version_id,
    ) by {
        let element = state.elements[e];
        assert(state.has_version(element.document_set_id, element.set_version_id));
        let row = state.version_row(element.document_set_id, element.set_version_id);
        assert(state.is_version(row, element.document_set_id, element.set_version_id));
        assert(after.is_version(row, element.document_set_id, element.set_version_id));
    }
    assert(!after.has_parent(initial.document_set_id, initial.set_version_id)) by {
        assert forall|k: int| !after.is_parent_edge(
            k,
            initial.document_set_id,
            initial.set_version_id,
        ) by {}
    }
    assert(after.is_initial(n));
    assert forall|i: int| 0 <= i < after.versions.len() implies (#[trigger] after.is_initial(i)
        <==> !after.has_parent(after.versions[i].document_set_id, after.versions[i].set_version_id)) by {
        if i < n {
            let d = state.versions[i].document_set_id;
            let v = state.versions[i].set_version_id;
            assert(state.is_initial(i) <==> !state.has_parent(d, v));
            assert(after.is_initial(i) <==> state.is_initial(i)) by {
                if state.is_initial(i) {
                    assert forall|j: int| 0 <= j < i implies (#[trigger] after.versions[j]).document_set_id
                        != after.versions[i].document_set_id by {
                        assert(state.versions[j].document_set_id != state.versions[i].document_set_id);
                    }
                }
                if after.is_initial(i) {
                    assert forall|j: int| 0 <= j < i implies (#[trigger] state.versions[j]).document_set_id
                        != state.versions[i].document_set_id by {
                        assert(after.versions[j].document_set_id != after.versions[i].document_set_id);
                    }
                }
            }
            assert(after.has_parent(d, v) <==> state.has_parent(d, v)) by {
                if state.has_parent(d, v) {
                    let k = choose|k: int| state.is_parent_edge(k, d, v);
                    assert(after.is_parent_edge(k, d, v));
                }
                if after.has_parent(d, v) {
                    let k = choose|k: int| after.is_parent_edge(k, d, v);
                    assert(state.is_parent_edge(k, d, v));
                }
            }
        }
    }
}

/// Recording a new version with edges to existing parents keeps the store
/// well-formed.
pub proof fn lemma_with_version_wf(state: SetsState, version: SetVersionRecord, parents: Seq<Id>)
    requires
        state.wf(),
        is_version_name(version.set_version_name),
        parents.len() > 0,
        state.has_set(version.document_set_id),
        !state.has_version_named(version.document_set_id, version.set_version_name),
        state.has_versions(version.document_set_id, parents),
        !state.has_version(version.document_set_id, version.set_version_id),
    ensures
        state.with_version(version, parents).wf(),
{
    let after = state.with_version(version, parents);
    let n = state.versions.len() as int;
    let m = state.dependencies.len() as int;
    let d = version.document_set_id;
    let v = version.set_version_id;
    assert forall|i: int, j: int|
        #![trigger after.versions[i], after.versions[j]]
        0 <= i < after.versions.len() && 0 <= j < after.versions.len()
            && after.versions[i].document_set_id == after.versions[j].document_set_id
            && after.versions[i].set_version_id == after.versions[j].set_version_id implies i == j by {
        if i < n {
            assert(!state.is_version(i, d, v));
        }
        if j < n {
            assert(!state.is_version(j, d, v));
        }
    }
    assert forall|i: int, j: int|
        #![trigger after.versions[i], after.versions[j]]
        0 <= i < after.versions.len() && 0 <= j < after.versions.len()
            && after.versions[i].document_set_id == after.versions[j].document_set_id
            && after.versions[i].set_version_name == after.versions[j].set_version_name implies i == j by {
        if i < n {
            assert(!state.is_version_named(i, d, version.set_version_name));
        }
        if j < n {
            assert(!state.is_version_named(j, d, version.set_version_name));
        }
    }
    assert forall|i: int| 0 <= i < after.versions.len() implies after.has_set(
        (#[trigger] after.versions[i]).document_set_id,
    ) && is_version_name(after.versions[i].set_version_name) by {
        let row = state.set_row(after.versions[i].document_set_id);
        if i < n {
            assert(state.has_set(state.versions[i].document_set_id));
        }
        assert(state.is_set(row, after.versions[i].document_set_id));
        assert(after.is_set(row, after.versions[i].document_set_id));
    }
    assert forall|k: int| 0 <= k < after.dependencies.len() implies #[trigger] after.edge_grounded(
        k,
    ) by {
        if k < m {
            assert(state.edge_grounded(k));
            let edge = state.dependencies[k];
            assert(after.dependencies[k] == edge);
            let (p, c) = choose|p: int, c: int|
                p < c && #[trigger] state.is_version(p, edge.graph_id, edge.parent_version_id)
                    && #[trigger] state.is_version(c, edge.graph_id, edge.child_version_id);
            assert(after.is_version(p, edge.graph_id, edge.parent_version_id));
            assert(after.is_version(c, edge.graph_id, edge.child_version_id));
        } else {
            let parent = parents[k - m];
            assert(after.dependencies[k] == edges_to(d, v, parents)[k - m]);
            assert(state.has_version(d, parent));
            let p = state.version_row(d, parent);
            assert(state.is_version(p, d, parent));
            assert(after.is_version(p, d, parent));
            assert(after.is_version(n, d, v));
            assert(after.dependencies[k].graph_id == d);
            assert(after.dependencies[k].parent_version_id == parent);
            assert(after.dependencies[k].child_version_id == v);
        }
    }
    assert forall|e: int| 0 <= e < after.elements.len() implies after.has_version(
        (#[trigger] after.elements[e]).document_set_id,
        after.elements[e].set_version_id,
    ) by {
        let element = state.elements[e];
        assert(state.has_version(element.document_set_id, element.set_version_id));
        let row = state.version_row(element.document_set_id, element.set_version_id);
        assert(state.is_version(row, element.document_set_id, element.set_version_id));
        assert(after.is_version(row, element.document_set_id, element.set_version_id));
    }
    assert forall|i: int| 0 <= i < after.versions.len() implies (#[trigger] after.is_initial(i)
        <==> !after.has_parent(after.versions[i].document_set_id, after.versions[i].set_version_id)) by {
        if i < n {
            let di = state.versions[i].document_set_id;
            let vi = state.versions[i].set_version_id;
            assert(!state.is_version(i, d, v));
            assert(state.is_initial(i) <==> !state.has_parent(di, vi));
            assert(after.is_initial(i) <==> state.is_initial(i)) by {
                if state.is_initial(i) {
                    assert forall|j: int| 0 <= j < i implies (#[trigger] after.versions[j]).document_set_id
                        != after.versions[i].document_set_id by {
                        assert(state.versions[j].document_set_id != state.versions[i].document_set_id);
                    }
                }
                if after.is_initial(i) {
                    assert forall|j: int| 0 <= j < i implies (#[trigger] state.versions[j]).document_set_id
                        != state.versions[i].document_set_id by {
                        assert(after.versions[j].document_set_id != after.versions[i].document_set_id);
                    }
                }
            }
            assert(after.has_parent(di, vi) <==> state.has_parent(di, vi)) by {
                if state.has_parent(di, vi) {
                    let k = choose|k: int| state.is_parent_edge(k, di, vi);
                    assert(after.is_parent_edge(k, di, vi));
                }
                if after.has_parent(di, vi) {
                    let k = choose|k: int| after.is_parent_edge(k, di, vi);
                    assert(state.is_parent_edge(k, di, vi));
                }
            }
        } else {
            assert(after.is_parent_edge(m, d, v));
            assert(state.has_version(d, parents[0]));
            let p = state.version_row(d, parents[0]);
            assert(state.is_version(p, d, parents[0]));
            assert(after.versions[p].document_set_id == after.versions[n].document_set_id);
        }
    }
}

/// Recording elements for a version that has none keeps the store well-formed.
pub proof fn lemma_with_elements_wf(
    state: SetsState,
    document_set_id: Id,
    set_version_id: Id,
    members: Seq<(Id, Id)>,
)
    requires
        state.wf(),
        state.has_version(document_set_id, set_version_id),
        state.has_no_elements(document_set_id, set_version_id),
        members.no_duplicates(),
    ensures
        state.with_elements(document_set_id, set_version_id, members).wf(),
{
    let after = state.with_elements(document_set_id, set_version_id, members);
    let m = state.elements.len() as int;
    lemma_elements_keep_graph(state, after);
    assert forall|e: int| 0 <= e < after.elements.len() implies after.has_version(
        (#[trigger] after.elements[e]).document_set_id,
        after.elements[e].set_version_id,
    ) by {
        if e < m {
            assert(after.elements[e] == state.elements[e]);
        } else {
            assert(after.elements[e] == elements_for(document_set_id, set_version_id, members)[e
                - m]);
        }
    }
    assert forall|a: int, b: int|
        0 <= a < after.elements.len() && 0 <= b < after.elements.len() && a
            != b implies after.elements[a] != after.elements[b] by {
        if a < m {
            assert(after.elements[a] == state.elements[a]);
        } else {
            assert(after.elements[a] == elements_for(document_set_id, set_version_id, members)[a
                - m]);
        }
        if b < m {
            assert(after.elements[b] == state.elements[b]);
        } else {
            assert(after.elements[b] == elements_for(document_set_id, set_version_id, members)[b
                - m]);
        }
        if a >= m && b >= m {
            assert(members[a - m] != members[b - m]);
        }
    }
}

/// A change to the elements alone leaves the graph of every set as it was.
pub proof fn lemma_elements_keep_graph(state: SetsState, after: SetsState)
    requires
        state.graph_wf(),
        after.sets == state.sets,
        after.versions == state.versions,
        after.dependencies == state.dependencies,
    ensures
        after.graph_wf(),
        forall|s: Id, v: Id| #[trigger] after.has_version(s, v) <==> state.has_version(s, v),
{
    assert forall|s: Id, v: Id| #[trigger] after.has_version(s, v) <==> state.has_version(
        s,
        v,
    ) by {
        if state.has_version(s, v) {
            assert(after.is_version(state.version_row(s, v), s, v));
        }
        if after.has_version(s, v) {
            assert(state.is_version(after.version_row(s, v), s, v));
        }
    }
    assert forall|j: int| 0 <= j < after.versions.len() implies after.has_set(
        (#[trigger] after.versions[j]).document_set_id,
    ) && is_version_name(after.versions[j].set_version_name) by {
        assert(state.has_set(state.versions[j].document_set_id));
        let row = state.set_row(state.versions[j].document_set_id);
        assert(state.is_set(row, state.versions[j].document_set_id));
        assert(after.is_set(row, after.versions[j].document_set_id));
    }
    assert forall|k: int| 0 <= k < after.dependencies.len() implies #[trigger] after.edge_grounded(
        k,
    ) by {
        assert(state.edge_grounded(k));
        let edge = state.dependencies[k];
        let (p, c) = choose|p: int, c: int|
            p < c && #[trigger] state.is_version(p, edge.graph_id, edge.parent_version_id)
                && #[trigger] state.is_version(c, edge.graph_id, edge.child_version_id);
        assert(after.is_version(p, edge.graph_id, edge.parent_version_id));
        assert(after.is_version(c, edge.graph_id, edge.child_version_id));
    }
    assert forall|j: int| 0 <= j < after.versions.len() implies (#[trigger] after.is_initial(j)
        <==> !after.has_parent(
        after.versions[j].document_set_id,
        after.versions[j].set_version_id,
    )) by {
        let dj = state.versions[j].document_set_id;
        let vj = state.versions[j].set_version_id;
        assert(state.is_initial(j) <==> !state.has_parent(dj, vj));
        assert(after.is_initial(j) <==> state.is_initial(j)) by {
            if state.is_initial(j) {
                assert forall|h: int| 0 <= h < j implies (
                #[trigger] after.versions[h]).document_set_id
                    != after.versions[j].document_set_id by {
                    assert(state.versions[h].document_set_id != state.versions[j].document_set_id);
                }
            }
            if after.is_initial(j) {
                assert forall|h: int| 0 <= h < j implies (
                #[trigger] state.versions[h]).document_set_id
                    != state.versions[j].document_set_id by {
                    assert(after.versions[h].document_set_id != after.versions[j].document_set_id);
                }
            }
        }
        assert(after.has_parent(dj, vj) <==> state.has_parent(dj, vj)) by {
            if state.has_parent(dj, vj) {
                let k = choose|k: int| state.is_parent_edge(k, dj, vj);
                assert(after.is_parent_edge(k, dj, vj));
            }
            if after.has_parent(dj, vj) {
                let k = choose|k: int| after.is_parent_edge(k, dj, vj);
                assert(state.is_parent_edge(k, dj, vj));
            }
        }
    }
}

/// Recording one more element of an existing version keeps the store well-formed.
pub proof fn lemma_with_element_wf(state: SetsState, element: SetElement)
    requires
        state.wf(),
        state.has_version(element.document_set_id, element.set_version_id),
        !state.elements.contains(element),
    ensures
        state.with_element(element).wf(),
{
    let after = state.with_element(element);
    lemma_elements_keep_graph(state, after);
    assert forall|e: int| 0 <= e < after.elements.len() implies after.has_version(
        (#[trigger] after.elements[e]).document_set_id,
        after.elements[e].set_version_id,
    ) by {
        if e < state.elements.len() {
            assert(after.elements[e] == state.elements[e]);
        }
    }
}

/// Taking an element out keeps the store well-formed.
pub proof fn lemma_without_element_wf(state: SetsState, element: SetElement)
    requires
        state.wf(),
        state.elements.contains(element),
    ensures
        state.without_element(element).wf(),
{
    let after = state.without_element(element);
    let at = state.elements.index_of(element);
    lemma_elements_keep_graph(state, after);
    assert forall|e: int| 0 <= e < after.elements.len() implies after.has_version(
        (#[trigger] after.elements[e]).document_set_id,
        after.elements[e].set_version_id,
    ) by {
        let from = if e < at { e } else { e + 1 };
        assert(after.elements[e] == state.elements[from]);
    }
    assert forall|a: int, b: int|
        0 <= a < after.elements.len() && 0 <= b < after.elements.len() && a
            != b implies after.elements[a] != after.elements[b] by {
        let from_a = if a < at { a } else { a + 1 };
        let from_b = if b < at { b } else { b + 1 };
        assert(after.elements[a] == state.elements[from_a]);
        assert(after.elements[b] == state.elements[from_b]);
    }
}

/// Whether some pair occurs twice in `pairs`.
pub fn has_duplicate_pairs(pairs: &Vec<(Id, Id)>) -> (found: bool)
    ensures
        found == !pairs@.no_duplicates(),
{
    let mut i: usize = 0;
    while i < pairs.len()
        invariant
            0 <= i <= pairs.len(),
            forall|a: int, b: int| 0 <= a < b < i ==> pairs@[a] != pairs@[b],
        decreases pairs.len() - i,
    {
        let mut j: usize = 0;
        while j < i
            invariant
                0 <= j <= i < pairs.len(),
                forall|a: int| 0 <= a < j ==> pairs@[a] != pairs@[i as int],
            decreases i - j,
        {
            if pairs[j].0 == pairs[i].0 && pairs[j].1 == pairs[i].1 {
                assert(pairs@[j as int] == pairs@[i as int]);
                return true;
            }
            j += 1;
        }
        i += 1;
    }
    assert forall|a: int, b: int|
        0 <= a < pairs@.len() && 0 <= b < pairs@.len() && a != b implies pairs@[a]
        != pairs@[b] by {
        if a < b {
        } else {
            assert(pairs@[b] != pairs@[a]);
        }
    }
    false
}

/// Whether every one of `members` is a version of a document in `documents`.
pub fn all_versions_exist(documents: &DocumentsRepository, members: &Vec<(Id, Id)>) -> (all: bool)
    ensures
        all == refers_to_versions(documents@, members@),
{
    let mut k: usize = 0;
    while k < members.len()
        invariant
            0 <= k <= members.len(),
            forall|j: int|
                0 <= j < k ==> documents@.has_version((#[trigger] members@[j]).0, members@[j].1),
        decreases members.len() - k,
    {
        if !documents.contains_version(members[k].0, members[k].1) {
            return false;
        }
        k += 1;
    }
    true
}

/// The document set store.
pub struct DocumentSetsRepository {
    sets: Vec<DocumentSet>,
    versions: Vec<SetVersionRow>,
    dependencies: Vec<Dependency>,
    elements: Vec<SetElement>,
}

impl View for DocumentSetsRepository {
    type V = SetsState;

    closed spec fn view(&self) -> SetsState {
        SetsState {
            sets: self.sets@.map_values(|set: DocumentSet| set@),
            versions: self.versions@.map_values(|version: SetVersionRow| version@),
            dependencies: self.dependencies@,
            elements: self.elements@,
        }
    }
}

impl DocumentSetsRepository {
    /// A store without document sets.
    pub fn new() -> (repository: DocumentSetsRepository)
        ensures
            repository@.sets.len() == 0,
            repository@.versions.len() == 0,
            repository@.dependencies.len() == 0,
            repository@.elements.len() == 0,
            repository@.wf(),
    {
        DocumentSetsRepository {
            sets: Vec::new(),
            versions: Vec::new(),
            dependencies: Vec::new(),
            elements: Vec::new(),
        }
    }

    /// The row of the document set `document_set_id`.
    fn find_set(&self, document_set_id: Id) -> (row: Option<usize>)
        ensures
            match row {
                Some(i) => self@.is_set(i as int, document_set_id),
                None => !self@.has_set(document_set_id),
            },
    {
        let mut i: usize = 0;
        while i < self.sets.len()
            invariant
                0 <= i <= self.sets.len(),
                forall|k: int| 0 <= k < i ==> !self@.is_set(k, document_set_id),
            decreases self.sets.len() - i,
        {
            if self.sets[i].document_set_id == document_set_id {
                return Some(i);
            }
            i += 1;
        }
        None
    }

    /// The row of the document set named `name`.
    fn find_set_named(&self, name: &String) -> (row: Option<usize>)
        ensures
            match row {
                Some(i) => self@.is_set_named(i as int, name@),
                None => !self@.has_set_named(name@),
            },
    {
        let mut i: usize = 0;
        while i < self.sets.len()
            invariant
                0 <= i <= self.sets.len(),
                forall|k: int| 0 <= k < i ==> !self@.is_set_named(k, name@),
            decreases self.sets.len() - i,
        {
            if self.sets[i].document_set_name == *name {
                return Some(i);
            }
            i += 1;
        }
        None
    }

    /// The row of version `set_version_id` of `document_set_id`.
    fn find_version(&self, document_set_id: Id, set_version_id: Id) -> (row: Option<usize>)
        ensures
            match row {
                Some(i) => self@.is_version(i as int, document_set_id, set_version_id),
                None => !self@.has_version(document_set_id, set_version_id),
            },
    {
        let mut i: usize = 0;
        while i < self.versions.len()
            invariant
                0 <= i <= self.versions.len(),
                forall|k: int| 0 <= k < i ==> !self@.is_version(k, document_set_id, set_version_id),
            decreases self.versions.len() - i,
        {
            if self.versions[i].document_set_id == document_set_id
                && self.versions[i].set_version_id == set_version_id {
                return Some(i);
            }
            i += 1;
        }
        None
    }

    /// The row of the version of `document_set_id` named `name`.
    fn find_version_named(&self, document_set_id: Id, name: &String) -> (row: Option<usize>)
        ensures
            match row {
                Some(i) => self@.is_version_named(i as int, document_set_id, name@),
                None => !self@.has_version_named(document_set_id, name@),
            },
    {
        let mut i: usize = 0;
        while i < self.versions.len()
            invariant
                0 <= i <= self.versions.len(),
                forall|k: int| 0 <= k < i ==> !self@.is_version_named(k, document_set_id, name@),
            decreases self.versions.len() - i,
        {
            if self.versions[i].document_set_id == document_set_id
                && self.versions[i].set_version_name == *name {
                return Some(i);
            }
            i += 1;
        }
        None
    }

    /// The row that records `element`.
    fn find_element(&self, element: &SetElement) -> (row: Option<usize>)
        ensures
            match row {
                Some(i) => i < self@.elements.len() && self@.elements[i as int] == *element,
                None => !self@.elements.contains(*element),
            },
    {
        let mut i: usize = 0;
        while i < self.elements.len()
            invariant
                0 <= i <= self.elements.len(),
                forall|k: int| 0 <= k < i ==> self.elements@[k] != *element,
            decreases self.elements.len() - i,
        {
            if self.elements[i] == *element {
                return Some(i);
            }
            i += 1;
        }
        None
    }

    /// Whether every one of `parents` is a version of `document_set_id`.
    fn has_versions(&self, document_set_id: Id, parents: &Vec<Id>) -> (all: bool)
        ensures
            all == self@.has_versions(document_set_id, parents@),
    {
        let mut k: usize = 0;
        while k < parents.len()
            invariant
                0 <= k <= parents.len(),
                forall|j: int|
                    0 <= j < k ==> self@.has_version(document_set_id, #[trigger] parents@[j]),
            decreases parents.len() - k,
        {
            if self.find_version(document_set_id, parents[k]).is_none() {
                return false;
            }
            k += 1;
        }
        true
    }

    /// The version in row `i`, with its elements and edges.
    fn read_version(&self, i: usize) -> (version: SetVersion)
        requires
            i < self@.versions.len(),
        ensures
            version@ == self@.version_at(i as int),
    {
        let row = &self.versions[i];
        let set = row.document_set_id;
        let id = row.set_version_id;
        let mut members: Vec<(Id, Id)> = Vec::new();
        let mut e: usize = 0;
        while e < self.elements.len()
            invariant
                0 <= e <= self.elements.len(),
                members@ == elements_among(self.elements@.take(e as int), set, id),
            decreases self.elements.len() - e,
        {
            let element = &self.elements[e];
            assert(self.elements@.take(e + 1).drop_last() == self.elements@.take(e as int));
            if element.document_set_id == set && element.set_version_id == id {
                members.push((element.document_id, element.version_id));
            }
            e += 1;
        }
        assert(self.elements@.take(e as int) == self.elements@);
        let mut parents: Vec<Id> = Vec::new();
        let mut children: Vec<Id> = Vec::new();
        let mut k: usize = 0;
        while k < self.dependencies.len()
            invariant
                0 <= k <= self.dependencies.len(),
                parents@ == parents_among(self.dependencies@.take(k as int), set, id),
                children@ == children_among(self.dependencies@.take(k as int), set, id),
            decreases self.dependencies.len() - k,
        {
            let edge = &self.dependencies[k];
            assert(self.dependencies@.take(k + 1).drop_last() == self.dependencies@.take(k as int));
            if edge.graph_id == set && edge.child_version_id == id {
                parents.push(edge.parent_version_id);
            }
            if edge.graph_id == set && edge.parent_version_id == id {
                children.push(edge.child_version_id);
            }
            k += 1;
        }
        assert(self.dependencies@.take(k as int) == self.dependencies@);
        SetVersion {
            document_set_id: set,
            set_version_id: id,
            set_version_name: row.set_version_name.clone(),
            created_at: row.created_at,
            document_version_ids: members,
            children,
            parents,
        }
    }

    /// Records `members` as the elements of version `set_version_id` of `document_set_id`.
    fn record_elements(&mut self, document_set_id: Id, set_version_id: Id, members: &Vec<(Id, Id)>)
        ensures
            final(self)@ == old(self)@.with_elements(document_set_id, set_version_id, members@),
    {
        let mut k: usize = 0;
        while k < members.len()
            invariant
                0 <= k <= members.len(),
                self.sets == old(self).sets,
                self.versions == old(self).versions,
                self.dependencies == old(self).dependencies,
                self.elements@ == old(self).elements@ + elements_for(
                    document_set_id,
                    set_version_id,
                    members@.take(k as int),
                ),
            decreases members.len() - k,
        {
            self.elements.push(
                SetElement {
                    document_set_id,
                    set_version_id,
                    document_id: members[k].0,
                    version_id: members[k].1,
                },
            );
            assert(members@.take(k + 1) == members@.take(k as int).push(members@[k as int]));
            assert(elements_for(document_set_id, set_version_id, members@.take(k + 1))
                == elements_for(document_set_id, set_version_id, members@.take(k as int)).push(
                SetElement {
                    document_set_id,
                    set_version_id,
                    document_id: members@[k as int].0,
                    version_id: members@[k as int].1,
                },
            ));
            k += 1;
        }
        assert(members@.take(k as int) == members@);
    }

    /// Creates the document set `document_set_id` named `document_set_name`,
    /// with its initial version `set_version_id` bundling
    /// `document_version_ids`, at the time `now`: all of it, or nothing.
    pub fn create_document_set_with(
        &mut self,
        documents: &DocumentsRepository,
        document_set_id: Id,
        set_version_id: Id,
        now: Timestamp,
        _user_id: Id,
        document_set_name: String,
        set_version_name: String,
        document_version_ids: Vec<(Id, Id)>,
    ) -> (result: Result<DocumentSetWithInitialVersion, RepoError>)
        requires
            old(self)@.wf(),
        ensures
            final(self)@.wf(),
            old(self)@.creates_set(
                final(self)@,
                documents@,
                result,
                document_set_id,
                set_version_id,
                now,
                document_set_name@,
                set_version_name@,
                document_version_ids@,
            ),
    {
        if !is_valid_version_name(set_version_name.as_str()) || has_duplicate_pairs(
            &document_version_ids,
        ) {
            return Err(RepoError::InvalidRequest);
        }
        if self.find_set_named(&document_set_name).is_some() {
            return Err(RepoError::UniqueConflict);
        }
        if !all_versions_exist(documents, &document_version_ids) {
            return Err(RepoError::NotFound);
        }
        if self.find_set(document_set_id).is_some() {
            return Err(RepoError::StoreFailure);
        }
        let set = DocumentSet { document_set_id, document_set_name: document_set_name.clone() };
        let row = SetVersionRow {
            document_set_id,
            set_version_id,
            set_version_name: set_version_name.clone(),
            created_at: now,
        };
        proof {
            lemma_with_set_wf(old(self)@, set@, row@);
            lemma_nothing_of_missing_set(old(self)@, document_set_id);
            let middle = old(self)@.with_set(set@, row@);
            assert(middle.is_version(old(self)@.versions.len() as int, document_set_id, set_version_id));
            lemma_with_elements_wf(middle, document_set_id, set_version_id, document_version_ids@);
        }
        self.sets.push(set);
        self.versions.push(row);
        assert(self@.sets == old(self)@.sets.push(set@));
        assert(self@.versions == old(self)@.versions.push(row@));
        assert(self@ == old(self)@.with_set(set@, row@));
        self.record_elements(document_set_id, set_version_id, &document_version_ids);
        Ok(
            DocumentSetWithInitialVersion {
                document_set: DocumentSet { document_set_id, document_set_name },
                initial_version: SetVersion {
                    document_set_id,
                    set_version_id,
                    set_version_name,
                    created_at: now,
                    document_version_ids,
                    children: Vec::new(),
                    parents: Vec::new(),
                },
            },
        )
    }

    /// Creates a document set with its initial version, under fresh
    /// identifiers and at the current time.
    pub fn create_document_set(
        &mut self,
        documents: &DocumentsRepository,
        user_id: Id,
        document_set_name: String,
        set_version_name: String,
        document_version_ids: Vec<(Id, Id)>,
    ) -> (result: Result<DocumentSetWithInitialVersion, RepoError>)
        requires
            old(self)@.wf(),
        ensures
            final(self)@.wf(),
            exists|document_set_id: Id, set_version_id: Id, now: Timestamp| #[trigger]
                old(self)@.creates_set(
                    final(self)@,
                    documents@,
                    result,
                    document_set_id,
                    set_version_id,
                    now,
                    document_set_name@,
                    set_version_name@,
                    document_version_ids@,
                ),
    {
        let document_set_id = fresh_id();
        let set_version_id = fresh_id();
        let now = current_time();
        self.create_document_set_with(
            documents,
            document_set_id,
            set_version_id,
            now,
            user_id,
            document_set_name,
            set_version_name,
            document_version_ids,
        )
    }

    /// Creates version `set_version_id` of `document_set_id`, derived from
    /// `parents` and bundling `document_version_ids`, at the time `now`: all of
    /// it, or nothing.
    pub fn create_document_set_version_with(
        &mut self,
        documents: &DocumentsRepository,
        set_version_id: Id,
        now: Timestamp,
        _user_id: Id,
        document_set_id: Id,
        set_version_name: String,
        document_version_ids: Vec<(Id, Id)>,
        parents: Vec<Id>,
    ) -> (result: Result<SetVersion, RepoError>)
        requires
            old(self)@.wf(),
        ensures
            final(self)@.wf(),
            old(self)@.creates_version(
                final(self)@,
                documents@,
                result,
                document_set_id,
                set_version_id,
                now,
                set_version_name@,
                document_version_ids@,
                parents@,
            ),
    {
        if !is_valid_version_name(set_version_name.as_str()) || parents.len() == 0 || has_duplicates(
            &parents,
        ) || has_duplicate_pairs(&document_version_ids) {
            return Err(RepoError::InvalidRequest);
        }
        if self.find_set(document_set_id).is_none() {
            return Err(RepoError::NotFound);
        }
        if self.find_version_named(document_set_id, &set_version_name).is_some() {
            return Err(RepoError::UniqueConflict);
        }
        if !self.has_versions(document_set_id, &parents) || !all_versions_exist(
            documents,
            &document_version_ids,
        ) {
            return Err(RepoError::NotFound);
        }
        if self.find_version(document_set_id, set_version_id).is_some() {
            return Err(RepoError::StoreFailure);
        }
        let row = SetVersionRow {
            document_set_id,
            set_version_id,
            set_version_name: set_version_name.clone(),
            created_at: now,
        };
        proof {
            lemma_with_version_wf(old(self)@, row@, parents@);
            let middle = old(self)@.with_version(row@, parents@);
            assert(middle.is_version(old(self)@.versions.len() as int, document_set_id, set_version_id));
            assert(middle.has_no_elements(document_set_id, set_version_id)) by {
                assert forall|e: int| 0 <= e < middle.elements.len() implies !((
                #[trigger] middle.elements[e]).document_set_id == document_set_id
                    && middle.elements[e].set_version_id == set_version_id) by {
                    assert(old(self)@.has_version(
                        old(self)@.elements[e].document_set_id,
                        old(self)@.elements[e].set_version_id,
                    ));
                }
            }
            lemma_with_elements_wf(middle, document_set_id, set_version_id, document_version_ids@);
        }
        self.versions.push(row);
        let mut k: usize = 0;
        while k < parents.len()
            invariant
                0 <= k <= parents.len(),
                self.sets == old(self).sets,
                self.elements == old(self).elements,
                self.versions@ == old(self).versions@.push(row),
                self.dependencies@ == old(self).dependencies@ + edges_to(
                    document_set_id,
                    set_version_id,
                    parents@.take(k as int),
                ),
            decreases parents.len() - k,
        {
            self.dependencies.push(
                Dependency {
                    graph_id: document_set_id,
                    parent_version_id: parents[k],
                    child_version_id: set_version_id,
                },
            );
            assert(parents@.take(k + 1) == parents@.take(k as int).push(parents@[k as int]));
            assert(edges_to(document_set_id, set_version_id, parents@.take(k + 1)) == edges_to(
                document_set_id,
                set_version_id,
                parents@.take(k as int),
            ).push(
                Dependency {
                    graph_id: document_set_id,
                    parent_version_id: parents@[k as int],
                    child_version_id: set_version_id,
                },
            ));
            k += 1;
        }
        assert(parents@.take(k as int) == parents@);
        assert(self@.versions == old(self)@.versions.push(row@));
        assert(self@ == old(self)@.with_version(row@, parents@));
        self.record_elements(document_set_id, set_version_id, &document_version_ids);
        Ok(
            SetVersion {
                document_set_id,
                set_version_id,
                set_version_name,
                created_at: now,
                document_version_ids,
                children: Vec::new(),
                parents,
            },
        )
    }

    /// Creates a version of `document_set_id`, under a fresh identifier and
    /// at the current time.
    pub fn create_document_set_version(
        &mut self,
        documents: &DocumentsRepository,
        user_id: Id,
        document_set_id: Id,
        set_version_name: String,
        document_version_ids: Vec<(Id, Id)>,
        parents: Vec<Id>,
    ) -> (result: Result<SetVersion, RepoError>)
        requires
            old(self)@.wf(),
        ensures
            final(self)@.wf(),
            exists|set_version_id: Id, now: Timestamp| #[trigger]
                old(self)@.creates_version(
                    final(self)@,
                    documents@,
                    result,
                    document_set_id,
                    set_version_id,
                    now,
                    set_version_name@,
                    document_version_ids@,
                    parents@,
                ),
    {
        let set_version_id = fresh_id();
        let now = current_time();
        self.create_document_set_version_with(
            documents,
            set_version_id,
            now,
            user_id,
            document_set_id,
            set_version_name,
            document_version_ids,
            parents,
        )
    }

    /// Every document set, in the order of creation.
    pub fn get_document_sets(&self, _user_id: Id) -> (listed: Vec<DocumentSet>)
        ensures
            listed@.map_values(|set: DocumentSet| set@) == self@.sets,
    {
        let mut listed: Vec<DocumentSet> = Vec::new();
        let mut i: usize = 0;
        while i < self.sets.len()
            invariant
                0 <= i <= self.sets.len(),
                listed@.map_values(|set: DocumentSet| set@) == self@.sets.take(i as int),
            decreases self.sets.len() - i,
        {
            let ghost before = listed@.map_values(|set: DocumentSet| set@);
            let set = self.sets[i].duplicate();
            listed.push(set);
            assert(listed@.map_values(|set: DocumentSet| set@) == before.push(set@));
            assert(self@.sets.take(i + 1) == self@.sets.take(i as int).push(self@.sets[i as int]));
            i += 1;
        }
        assert(self@.sets.take(i as int) == self@.sets);
        listed
    }

    /// The versions of `document_set_id`, oldest first.
    pub fn get_document_set_versions(&self, _user_id: Id, document_set_id: Id) -> (listed: Vec<
        SetVersion,
    >)
        ensures
            exists|rows: Seq<int>| #[trigger] self@.lists_versions(document_set_id, rows, listed@),
    {
        let mut listed: Vec<SetVersion> = Vec::new();
        let ghost mut rows: Seq<int> = Seq::empty();
        let mut i: usize = 0;
        while i < self.versions.len()
            invariant
                0 <= i <= self.versions.len(),
                rows.len() == listed@.len(),
                forall|k: int|
                    0 <= k < rows.len() ==> 0 <= #[trigger] rows[k] < i
                        && self@.versions[rows[k]].document_set_id == document_set_id
                        && listed@[k]@ == self@.version_at(rows[k]),
                forall|j: int|
                    0 <= j < i && self@.versions[j].document_set_id == document_set_id
                        ==> #[trigger] rows.contains(j),
                forall|a: int, b: int|
                    0 <= a < b < rows.len() ==> #[trigger] self@.listed_before(rows[a], rows[b]),
            decreases self.versions.len() - i,
        {
            if self.versions[i].document_set_id == document_set_id {
                let version = self.read_version(i);
                let created_at = self.versions[i].created_at;
                let mut at: usize = 0;
                while at < listed.len() && listed[at].created_at <= created_at
                    invariant
                        0 <= at <= listed@.len(),
                        forall|k: int| 0 <= k < at ==> (#[trigger] listed@[k]).created_at <= created_at,
                    decreases listed@.len() - at,
                {
                    at += 1;
                }
                let ghost before = rows;
                let ghost listed_before = listed@;
                listed.insert(at, version);
                proof {
                    rows = before.insert(at as int, i as int);
                    assert forall|k: int| 0 <= k < rows.len() implies 0 <= #[trigger] rows[k] < i
                        + 1 && self@.versions[rows[k]].document_set_id == document_set_id
                        && listed@[k]@ == self@.version_at(rows[k]) by {
                        if k < at {
                            assert(rows[k] == before[k]);
                            assert(listed@[k] == listed_before[k]);
                        } else if k > at {
                            assert(rows[k] == before[k - 1]);
                            assert(listed@[k] == listed_before[k - 1]);
                        }
                    }
                    assert forall|j: int|
                        0 <= j < i + 1 && self@.versions[j].document_set_id
                            == document_set_id implies #[trigger] rows.contains(j) by {
                        if j < i {
                            assert(before.contains(j));
                            let k = choose|k: int| 0 <= k < before.len() && before[k] == j;
                            if k < at {
                                assert(rows[k] == j);
                            } else {
                                assert(rows[k + 1] == j);
                            }
                        } else {
                            assert(rows[at as int] == j);
                        }
                    }
                    assert forall|a: int, b: int| 0 <= a < b < rows.len() implies #[trigger]
                        self@.listed_before(rows[a], rows[b]) by {
                        let from_a = if a < at { a } else { a - 1 };
                        let from_b = if b < at { b } else { b - 1 };
                        if a != at && b != at {
                            assert(rows[a] == before[from_a]);
                            assert(rows[b] == before[from_b]);
                            assert(self@.listed_before(before[from_a], before[from_b]));
                        } else if a == at {
                            assert(rows[b] == before[b - 1]);
                            assert(listed_before[b - 1]@ == self@.version_at(before[b - 1]));
                            if b - 1 > at {
                                assert(self@.listed_before(before[at as int], before[b - 1]));
                                assert(listed_before[at as int]@ == self@.version_at(
                                    before[at as int],
                                ));
                            }
                        } else {
                            assert(rows[a] == before[a]);
                            assert(listed_before[a]@ == self@.version_at(before[a]));
                        }
                    }
                }
            }
            i += 1;
        }
        assert(self@.lists_versions(document_set_id, rows, listed@));
        listed
    }

    /// Adds version `version_id` of `document_id` to what version
    /// `set_version_id` of `document_set_id` bundles.
    pub fn add_to_document_set_version(
        &mut self,
        documents: &DocumentsRepository,
        _user_id: Id,
        document_set_id: Id,
        set_version_id: Id,
        document_id: Id,
        version_id: Id,
    ) -> (result: Result<bool, RepoError>)
        requires
            old(self)@.wf(),
        ensures
            final(self)@.wf(),
            old(self)@.adds_element(
                final(self)@,
                documents@,
                result,
                SetElement { document_set_id, set_version_id, document_id, version_id },
            ),
    {
        let element = SetElement { document_set_id, set_version_id, document_id, version_id };
        if self.find_version(document_set_id, set_version_id).is_none()
            || !documents.contains_version(document_id, version_id) {
            return Err(RepoError::NotFound);
        }
        if self.find_element(&element).is_some() {
            return Ok(false);
        }
        proof {
            lemma_with_element_wf(old(self)@, element);
        }
        self.elements.push(element);
        Ok(true)
    }

    /// Takes version `version_id` of `document_id` out of what version
    /// `set_version_id` of `document_set_id` bundles. Returns `false`, and
    /// changes nothing, where it is not part of it.
    pub fn remove_from_document_set_version(
        &mut self,
        _user_id: Id,
        document_set_id: Id,
        set_version_id: Id,
        document_id: Id,
        version_id: Id,
    ) -> (removed: bool)
        requires
            old(self)@.wf(),
        ensures
            final(self)@.wf(),
            old(self)@.removes_element(
                final(self)@,
                removed,
                SetElement { document_set_id, set_version_id, document_id, version_id },
            ),
    {
        let element = SetElement { document_set_id, set_version_id, document_id, version_id };
        match self.find_element(&element) {
            Some(i) => {
                assert(self@.elements.index_of(element) == i);
                proof {
                    lemma_without_element_wf(old(self)@, element);
                }
                self.elements.remove(i);
                true
            },
            None => false,
        }
    }
}

} // verus!
