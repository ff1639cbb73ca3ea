//! What holds of the stores and use cases whatever the requests: the shape of
//! the version graph, the uniqueness of names, ownership, the totality of the
//! lifecycle, and the outcome of writers that race.
//!
//! Requests that run concurrently take effect one after the other, each as a
//! whole. The laws on racing writers are therefore stated of two requests
//! applied in sequence, in either order.

use vstd::prelude::*;

use crate::handlers::permission::{handles_grant, handles_revoke};
use crate::handlers::states::{handles_state_change, may_request};
use crate::ident::{Id, Timestamp};
use crate::models::document::DocumentWithInitialVersion;
use crate::models::role::DocumentVersionRole;
use crate::models::set_version::SetVersion;
use crate::models::version::DocumentVersion;
use crate::models::version_state::DocumentVersionState;
use crate::repositories::documents::{
    lemma_version_row,
    lemma_with_row_wf,
    next_token,
    ownership,
    DocumentsState,
    VersionRecord,
};
use crate::repositories::graph::{
    lemma_children_among_appended,
    lemma_children_among_gained,
    lemma_parents_among,
    lemma_parents_among_appended,
    Dependency,
};
use crate::repositories::document_sets::SetsState;
use crate::repositories::events::EventsState;
use crate::repositories::permission::{PermissionState, RoleGrant};
use crate::repositories::RepoError;

verus! {

/// The version graph: a version has no parents exactly if it is the initial
/// version of its document, and every parent of a version is an existing
/// version of the same document, recorded before it.
pub proof fn law_version_graph(state: DocumentsState, i: int)
    requires
        state.wf(),
        0 <= i < state.versions.len(),
    ensures
        state.is_initial(i) <==> state.version_at(i).parents.len() == 0,
        forall|k: int|
            0 <= k < state.version_at(i).parents.len() ==> state.has_version(
                state.versions[i].document_id,
                #[trigger] state.version_at(i).parents[k],
            ) && state.version_row(
                state.versions[i].document_id,
                state.version_at(i).parents[k],
            ) < i,
{
    let d = state.versions[i].document_id;
    let v = state.versions[i].version_id;
    let parents = state.version_at(i).parents;
    lemma_parents_among(state.dependencies, d, v);
    assert(state.is_initial(i) <==> !state.has_parent(d, v));
    if state.has_parent(d, v) {
        let k = choose|k: int| state.is_parent_edge(k, d, v);
        assert(state.dependencies[k].graph_id == d);
    }
    if parents.len() > 0 {
        let k = choose|k: int|
            0 <= k < state.dependencies.len() && (#[trigger] state.dependencies[k]).graph_id == d
                && state.dependencies[k].child_version_id == v;
        assert(state.is_parent_edge(k, d, v));
    }
    assert forall|k: int| 0 <= k < parents.len() implies state.has_version(
        d,
        #[trigger] parents[k],
    ) && state.version_row(d, parents[k]) < i by {
        let parent = parents[k];
        assert(parents.contains(parent));
        let edge = Dependency { graph_id: d, parent_version_id: parent, child_version_id: v };
        assert(state.dependencies.contains(edge));
        let e = choose|e: int| 0 <= e < state.dependencies.len() && state.dependencies[e] == edge;
        assert(state.edge_grounded(e));
        let (p, c) = choose|p: int, c: int|
            p < c && #[trigger] state.is_version(p, d, parent) && #[trigger] state.is_version(
                c,
                d,
                v,
            );
        lemma_version_row(state, p, d, parent);
        assert(state.is_version(i, d, v));
        lemma_version_row(state, c, d, v);
        lemma_version_row(state, i, d, v);
    }
}

/// Among the versions of a document up to row `upto`, one is initial.
proof fn lemma_first_version(state: DocumentsState, document_id: Id, upto: int) -> (i: int)
    requires
        state.is_version_of(upto, document_id),
    ensures
        0 <= i <= upto,
        state.is_version_of(i, document_id),
        state.is_initial(i),
    decreases upto,
{
    if state.is_initial(upto) {
        upto
    } else {
        let j = choose|j: int|
            0 <= j < upto && (#[trigger] state.versions[j]).document_id
                == state.versions[upto].document_id;
        lemma_first_version(state, document_id, j)
    }
}

/// Every document has exactly one initial version, and that version has no parents.
pub proof fn law_every_document_has_one_initial_version(state: DocumentsState, document_id: Id)
    requires
        state.wf(),
        state.has_document(document_id),
    ensures
        exists|i: int|
            state.is_version_of(i, document_id) && #[trigger] state.is_initial(i)
                && state.version_at(i).parents.len() == 0,
        forall|i: int, j: int|
            state.is_version_of(i, document_id) && state.is_version_of(j, document_id)
                && #[trigger] state.is_initial(i) && #[trigger] state.is_initial(j) ==> i == j,
{
    let row = state.document_row(document_id);
    assert(state.is_document(row, document_id));
    assert(state.has_version_of(state.documents[row].document_id));
    let some = choose|j: int| state.is_version_of(j, document_id);
    let first = lemma_first_version(state, document_id, some);
    law_version_graph(state, first);
    assert forall|i: int, j: int|
        state.is_version_of(i, document_id) && state.is_version_of(j, document_id)
            && #[trigger] state.is_initial(i) && #[trigger] state.is_initial(j) implies i
        == j by {
        if i < j {
            assert(state.versions[i].document_id == state.versions[j].document_id);
        } else if j < i {
            assert(state.versions[j].document_id == state.versions[i].document_id);
        }
    }
}

/// A document's first version is created without parents, and is the initial
/// version of its document.
pub proof fn law_initial_version_has_no_parents(
    state: DocumentsState,
    after: DocumentsState,
    roles: PermissionState,
    roles_after: PermissionState,
    result: Result<DocumentWithInitialVersion, RepoError>,
    user_id: Id,
    document_id: Id,
    version_id: Id,
    now: Timestamp,
    document_name: Seq<char>,
    version_name: Seq<char>,
    content: Seq<char>,
)
    requires
        state.wf(),
        state.creates_document(
            after,
            roles,
            roles_after,
            result,
            user_id,
            document_id,
            version_id,
            now,
            document_name,
            version_name,
            content,
        ),
        result is Ok,
    ensures
        result->Ok_0.initial_version@.parents.len() == 0,
        result->Ok_0.initial_version@.version_state == DocumentVersionState::InProgress,
        after.is_version(state.versions.len() as int, document_id, version_id),
        after.is_initial(state.versions.len() as int),
        after.version_at(state.versions.len() as int) == result->Ok_0.initial_version@,
{
    let n = state.versions.len() as int;
    crate::repositories::documents::lemma_with_document_wf(
        state,
        crate::models::document::DocumentView { document_id, document_name },
        crate::repositories::documents::new_record(
            document_id,
            version_id,
            version_name,
            content,
            now,
        ),
    );
    lemma_parents_among(after.dependencies, document_id, version_id);
    crate::repositories::documents::lemma_children_of_newest(after, n);
    assert(after.is_initial(n) <==> !after.has_parent(document_id, version_id));
    assert forall|k: int| 0 <= k < after.dependencies.len() implies !((
    #[trigger] after.dependencies[k]).graph_id == document_id
        && after.dependencies[k].child_version_id == version_id) by {
        assert(!after.is_parent_edge(k, document_id, version_id));
    }
    assert(after.version_at(n).parents =~= Seq::<Id>::empty());
}

/// A version is stored as it is returned from its creation, and changes the
/// graph around it in one way only: each of its parents gains it as a child.
/// Every version keeps its parents, and every version that is not among the
/// parents keeps its children.
pub proof fn law_creation_extends_the_graph(
    state: DocumentsState,
    after: DocumentsState,
    roles: PermissionState,
    roles_after: PermissionState,
    result: Result<DocumentVersion, RepoError>,
    user_id: Id,
    document_id: Id,
    version_id: Id,
    now: Timestamp,
    version_name: Seq<char>,
    content: Seq<char>,
    parents: Seq<Id>,
    i: int,
)
    requires
        state.wf(),
        state.creates_version(
            after,
            roles,
            roles_after,
            result,
            user_id,
            document_id,
            version_id,
            now,
            version_name,
            content,
            parents,
        ),
        result is Ok,
        0 <= i < state.versions.len(),
    ensures
        after.wf(),
        after.version_at(state.versions.len() as int) == result->Ok_0@,
        after.version_at(i).parents == state.version_at(i).parents,
        after.version_at(i).children == if state.versions[i].document_id == document_id
            && parents.contains(state.versions[i].version_id) {
            state.version_at(i).children.push(version_id)
        } else {
            state.version_at(i).children
        },
{
    let n = state.versions.len() as int;
    let record = crate::repositories::documents::new_record(
        document_id,
        version_id,
        version_name,
        content,
        now,
    );
    crate::repositories::documents::lemma_with_version_wf(state, record, parents);
    lemma_parents_among_appended(
        state.dependencies,
        document_id,
        version_id,
        parents,
        document_id,
        version_id,
    );
    lemma_parents_among(state.dependencies, document_id, version_id);
    assert forall|k: int| 0 <= k < state.dependencies.len() implies !((
    #[trigger] state.dependencies[k]).graph_id == document_id
        && state.dependencies[k].child_version_id == version_id) by {
        assert(state.edge_grounded(k));
        if state.dependencies[k].graph_id == document_id && state.dependencies[k].child_version_id
            == version_id {
            let (p, c) = choose|p: int, c: int|
                p < c && #[trigger] state.is_version(
                    p,
                    document_id,
                    state.dependencies[k].parent_version_id,
                ) && #[trigger] state.is_version(c, document_id, version_id);
            assert(state.has_version(document_id, version_id));
        }
    }
    assert(state.parents_of(document_id, version_id) + parents =~= parents);
    crate::repositories::documents::lemma_children_of_newest(after, n);
    let d = state.versions[i].document_id;
    let v = state.versions[i].version_id;
    assert(!state.is_version(i, document_id, version_id));
    lemma_parents_among_appended(state.dependencies, document_id, version_id, parents, d, v);
    if d == document_id && parents.contains(v) {
        lemma_children_among_gained(state.dependencies, document_id, version_id, parents, v);
    } else {
        lemma_children_among_appended(state.dependencies, document_id, version_id, parents, d, v);
    }
}

/// Names are unique within a document: of two requests for the same name in
/// the same document, each acceptable on its own, the one that comes first
/// succeeds and the other is a `UniqueConflict` that changes nothing.
pub proof fn law_one_name_one_version(
    state: DocumentsState,
    middle: DocumentsState,
    after: DocumentsState,
    roles: PermissionState,
    roles_middle: PermissionState,
    roles_after: PermissionState,
    first: Result<DocumentVersion, RepoError>,
    second: Result<DocumentVersion, RepoError>,
    document_id: Id,
    version_name: Seq<char>,
    now: Timestamp,
    first_user: Id,
    first_id: Id,
    first_content: Seq<char>,
    first_parents: Seq<Id>,
    second_user: Id,
    second_id: Id,
    second_content: Seq<char>,
    second_parents: Seq<Id>,
    later: Timestamp,
)
    requires
        state.wf(),
        state.version_refusal(document_id, first_id, version_name, first_parents) is None,
        state.version_refusal(document_id, second_id, version_name, second_parents) is None,
        state.creates_version(
            middle,
            roles,
            roles_middle,
            first,
            first_user,
            document_id,
            first_id,
            now,
            version_name,
            first_content,
            first_parents,
        ),
        middle.creates_version(
            after,
            roles_middle,
            roles_after,
            second,
            second_user,
            document_id,
            second_id,
            later,
            version_name,
            second_content,
            second_parents,
        ),
    ensures
        first is Ok,
        second == Err::<DocumentVersion, RepoError>(RepoError::UniqueConflict),
        after == middle,
        roles_after == roles_middle,
{
    let n = state.versions.len() as int;
    assert(middle.is_version_named(n, document_id, version_name));
    let row = state.document_row(document_id);
    assert(state.is_document(row, document_id));
    assert(middle.is_document(row, document_id));
}

/// The same holds of documents: of two requests to create a document under
/// one display name, each acceptable on its own, the first succeeds and the
/// second is a `UniqueConflict` that changes nothing.
pub proof fn law_one_name_one_document(
    state: DocumentsState,
    middle: DocumentsState,
    after: DocumentsState,
    roles: PermissionState,
    roles_middle: PermissionState,
    roles_after: PermissionState,
    first: Result<DocumentWithInitialVersion, RepoError>,
    second: Result<DocumentWithInitialVersion, RepoError>,
    document_name: Seq<char>,
    first_user: Id,
    first_document: Id,
    first_version: Id,
    now: Timestamp,
    first_name: Seq<char>,
    first_content: Seq<char>,
    second_user: Id,
    second_document: Id,
    second_version: Id,
    later: Timestamp,
    second_name: Seq<char>,
    second_content: Seq<char>,
)
    requires
        state.wf(),
        state.document_refusal(first_document, document_name, first_name) is None,
        state.document_refusal(second_document, document_name, second_name) is None,
        state.creates_document(
            middle,
            roles,
            roles_middle,
            first,
            first_user,
            first_document,
            first_version,
            now,
            document_name,
            first_name,
            first_content,
        ),
        middle.creates_document(
            after,
            roles_middle,
            roles_after,
            second,
            second_user,
            second_document,
            second_version,
            later,
            document_name,
            second_name,
            second_content,
        ),
    ensures
        first is Ok,
        second == Err::<DocumentWithInitialVersion, RepoError>(RepoError::UniqueConflict),
        after == middle,
        roles_after == roles_middle,
{
    assert(middle.is_document_named(state.documents.len() as int, document_name));
}

/// Whoever creates a version owns it as soon as it exists.
pub proof fn law_creator_owns_version(
    state: DocumentsState,
    after: DocumentsState,
    roles: PermissionState,
    roles_after: PermissionState,
    result: Result<DocumentVersion, RepoError>,
    user_id: Id,
    document_id: Id,
    version_id: Id,
    now: Timestamp,
    version_name: Seq<char>,
    content: Seq<char>,
    parents: Seq<Id>,
)
    requires
        state.creates_version(
            after,
            roles,
            roles_after,
            result,
            user_id,
            document_id,
            version_id,
            now,
            version_name,
            content,
            parents,
        ),
        result is Ok,
    ensures
        after.has_version(document_id, version_id),
        roles_after.has_role(user_id, document_id, version_id, DocumentVersionRole::Owner),
{
    let grant = ownership(user_id, document_id, version_id);
    assert(after.is_version(state.versions.len() as int, document_id, version_id));
    if !roles.grants.contains(grant) {
        assert(roles_after.grants[roles.grants.len() as int] == grant);
    }
}

/// Whoever creates a document owns its initial version as soon as it exists.
pub proof fn law_creator_owns_initial_version(
    state: DocumentsState,
    after: DocumentsState,
    roles: PermissionState,
    roles_after: PermissionState,
    result: Result<DocumentWithInitialVersion, RepoError>,
    user_id: Id,
    document_id: Id,
    version_id: Id,
    now: Timestamp,
    document_name: Seq<char>,
    version_name: Seq<char>,
    content: Seq<char>,
)
    requires
        state.creates_document(
            after,
            roles,
            roles_after,
            result,
            user_id,
            document_id,
            version_id,
            now,
            document_name,
            version_name,
            content,
        ),
        result is Ok,
    ensures
        after.has_version(document_id, version_id),
        roles_after.has_role(user_id, document_id, version_id, DocumentVersionRole::Owner),
{
    let grant = ownership(user_id, document_id, version_id);
    assert(after.is_version(state.versions.len() as int, document_id, version_id));
    if !roles.grants.contains(grant) {
        assert(roles_after.grants[roles.grants.len() as int] == grant);
    }
}

/// Granting and revoking keep the role store free of duplicates, and touch no
/// grant but the one asked for.
pub proof fn law_grants_are_independent(roles: PermissionState, grant: RoleGrant, other: RoleGrant)
    requires
        roles.wf(),
    ensures
        roles.granting(grant).wf(),
        roles.revoking(grant).wf(),
        roles.granting(grant).grants.contains(grant),
        !roles.revoking(grant).grants.contains(grant),
        other != grant ==> (roles.granting(grant).grants.contains(other) <==> roles.grants.contains(
            other,
        )),
        other != grant ==> (roles.revoking(grant).grants.contains(other) <==> roles.grants.contains(
            other,
        )),
{
    let granted = roles.granting(grant).grants;
    let revoked = roles.revoking(grant).grants;
    if !roles.grants.contains(grant) {
        assert(granted[roles.grants.len() as int] == grant);
        if roles.grants.contains(other) {
            let k = choose|k: int| 0 <= k < roles.grants.len() && roles.grants[k] == other;
            assert(granted[k] == other);
        }
        if granted.contains(other) && other != grant {
            let k = choose|k: int| 0 <= k < granted.len() && granted[k] == other;
            assert(roles.grants[k] == other);
        }
    } else {
        let at = roles.grants.index_of(grant);
        assert forall|a: int, b: int|
            0 <= a < revoked.len() && 0 <= b < revoked.len() && a != b implies revoked[a]
            != revoked[b] by {
            let from_a = if a < at { a } else { a + 1 };
            let from_b = if b < at { b } else { b + 1 };
            assert(revoked[a] == roles.grants[from_a]);
            assert(revoked[b] == roles.grants[from_b]);
        }
        assert forall|k: int| 0 <= k < revoked.len() implies revoked[k] != grant by {
            let from = if k < at { k } else { k + 1 };
            assert(revoked[k] == roles.grants[from]);
        }
        if roles.grants.contains(other) && other != grant {
            let k = choose|k: int| 0 <= k < roles.grants.len() && roles.grants[k] == other;
            if k < at {
                assert(revoked[k] == other);
            } else {
                assert(revoked[k - 1] == other);
            }
        }
        if revoked.contains(other) {
            let k = choose|k: int| 0 <= k < revoked.len() && revoked[k] == other;
            let from = if k < at { k } else { k + 1 };
            assert(roles.grants[from] == other);
        }
    }
}

/// Ownership can be neither granted nor revoked by request: whatever role a
/// grant or a revocation asks for, and for whomever, the owners of every
/// version are afterwards who they were before.
pub proof fn law_ownership_is_not_for_request(
    documents: DocumentsState,
    roles: PermissionState,
    roles_after: PermissionState,
    events: EventsState,
    events_after: EventsState,
    result: Result<bool, RepoError>,
    user_id: Id,
    document_id: Id,
    version_id: Id,
    role: DocumentVersionRole,
    event_id: Id,
    now: Timestamp,
    owner: Id,
    owned_document: Id,
    owned_version: Id,
)
    requires
        roles.wf(),
        handles_grant(
            documents,
            roles,
            roles_after,
            events,
            events_after,
            result,
            user_id,
            document_id,
            version_id,
            role,
            event_id,
            now,
        ) || handles_revoke(
            roles,
            roles_after,
            events,
            events_after,
            result,
            user_id,
            document_id,
            version_id,
            role,
            event_id,
            now,
        ),
    ensures
        roles_after.has_role(owner, owned_document, owned_version, DocumentVersionRole::Owner)
            <==> roles.has_role(owner, owned_document, owned_version, DocumentVersionRole::Owner),
        role == DocumentVersionRole::Owner ==> result == Err::<bool, RepoError>(
            RepoError::InvalidRequest,
        ) && roles_after == roles,
{
    law_grants_are_independent(
        roles,
        RoleGrant { user_id, document_id, version_id, role },
        ownership(owner, owned_document, owned_version),
    );
}

/// Revoking a role that is not held reports `false` and changes nothing;
/// granting a role that is held reports `false`, changes nothing, and so
/// records no grant twice.
pub proof fn law_grant_and_revoke_are_idempotent(
    roles: PermissionState,
    roles_after: PermissionState,
    grant: RoleGrant,
    changed: bool,
)
    requires
        roles.wf(),
    ensures
        roles.grants.contains(grant) && roles.granted(roles_after, grant, changed) ==> !changed
            && roles_after == roles,
        !roles.grants.contains(grant) && roles.revoked(roles_after, grant, changed) ==> !changed
            && roles_after == roles,
        roles.granted(roles_after, grant, changed) ==> roles_after.wf(),
        roles.revoked(roles_after, grant, changed) ==> roles_after.wf(),
        roles.granting(grant).granting(grant) == roles.granting(grant),
        roles.revoking(grant).revoking(grant) == roles.revoking(grant),
{
    law_grants_are_independent(roles, grant, grant);
}

/// The transition table, pair by pair.
pub proof fn law_transition_table(from: DocumentVersionState, target: DocumentVersionState)
    ensures
        from.may_enter(target) <==> (from == DocumentVersionState::InProgress && target
            == DocumentVersionState::ReadyForReview) || (from
            == DocumentVersionState::ReadyForReview && target == DocumentVersionState::Reviewed)
            || (from == DocumentVersionState::Reviewed && target
            == DocumentVersionState::Published) || (from == DocumentVersionState::ReadyForReview
            && target == DocumentVersionState::InProgress) || (from
            == DocumentVersionState::Reviewed && target == DocumentVersionState::InProgress),
{
}

/// The lifecycle is total: for a version that exists and a writer that
/// presents its current token, every pair of current and requested state has
/// an outcome. A pair in the transition table moves the version and gives it
/// a new token, unless no later time can be held; every other pair is a
/// `TransitionRejected` that changes nothing.
pub proof fn law_transitions_are_total(
    state: DocumentsState,
    after: DocumentsState,
    result: Result<DocumentVersion, RepoError>,
    document_id: Id,
    version_id: Id,
    target: DocumentVersionState,
    now: Timestamp,
)
    requires
        state.wf(),
        state.has_version(document_id, version_id),
        state.changes_state(
            after,
            result,
            document_id,
            version_id,
            target,
            state.versions[state.version_row(document_id, version_id)].updated_at,
            now,
        ),
    ensures
        ({
            let row = state.versions[state.version_row(document_id, version_id)];
            if !row.version_state.may_enter(target) {
                result == Err::<DocumentVersion, RepoError>(RepoError::TransitionRejected) && after
                    == state
            } else if next_token(row.updated_at, now) > i64::MAX {
                result == Err::<DocumentVersion, RepoError>(RepoError::StoreFailure) && after
                    == state
            } else {
                &&& result matches Ok(updated)
                &&& updated@.version_state == target
                &&& updated@.updated_at == next_token(row.updated_at, now)
                &&& updated@.updated_at != row.updated_at
                &&& updated@.version_id == version_id
                &&& updated@.document_id == document_id
                &&& updated@.content == row.content
            }
        }),
{
    let i = state.version_row(document_id, version_id);
    assert(state.is_version(i, document_id, version_id));
}

/// The same at the level of the use case: for a user entitled to request
/// `target`, a pair outside the transition table is a `TransitionRejected`,
/// whichever of the entitling roles the user holds; nothing changes and
/// nobody is notified.
pub proof fn law_illegal_transition_is_rejected(
    documents: DocumentsState,
    documents_after: DocumentsState,
    roles: PermissionState,
    events: EventsState,
    events_after: EventsState,
    result: Result<DocumentVersion, RepoError>,
    user_id: Id,
    document_id: Id,
    version_id: Id,
    target: DocumentVersionState,
    now: Timestamp,
    event_ids: Seq<Id>,
)
    requires
        documents.wf(),
        documents.has_version(document_id, version_id),
        may_request(roles, user_id, document_id, version_id, target),
        !documents.versions[documents.version_row(
            document_id,
            version_id,
        )].version_state.may_enter(target),
        handles_state_change(
            documents,
            documents_after,
            roles,
            events,
            events_after,
            result,
            user_id,
            document_id,
            version_id,
            target,
            documents.versions[documents.version_row(document_id, version_id)].updated_at,
            now,
            event_ids,
        ),
    ensures
        result == Err::<DocumentVersion, RepoError>(RepoError::TransitionRejected),
        documents_after == documents,
        events_after == events,
{
}

/// Two writers that present the same token to replace a version's content,
/// whatever the clock reads for either: the one that comes first succeeds and
/// leaves the version with a new token; the other is a `ConcurrencyConflict`
/// that changes nothing and carries the version as the first writer left it,
/// new token included. The one exception is a token that is the last time the
/// store can hold, with a clock that has not moved past it: then neither
/// writer can be given a new token, and both meet a failure of the store.
pub proof fn law_one_of_two_writers_wins(
    state: DocumentsState,
    middle: DocumentsState,
    after: DocumentsState,
    first: Result<DocumentVersion, RepoError>,
    second: Result<DocumentVersion, RepoError>,
    document_id: Id,
    version_id: Id,
    token: Timestamp,
    first_content: Seq<char>,
    now: Timestamp,
    second_content: Seq<char>,
    later: Timestamp,
)
    requires
        state.wf(),
        state.has_version(document_id, version_id),
        state.versions[state.version_row(document_id, version_id)].updated_at == token,
        state.versions[state.version_row(document_id, version_id)].version_state
            == DocumentVersionState::InProgress,
        state.updates_content(middle, first, document_id, version_id, first_content, token, now),
        middle.updates_content(
            after,
            second,
            document_id,
            version_id,
            second_content,
            token,
            later,
        ),
    ensures
        after == middle,
        if next_token(token, now) <= i64::MAX {
            &&& first matches Ok(updated)
            &&& updated@.content == first_content
            &&& updated@.updated_at == next_token(token, now)
            &&& updated@.updated_at != token
            &&& second matches Err(RepoError::ConcurrencyConflict(current))
            &&& current@ == updated@
        } else {
            &&& first == Err::<DocumentVersion, RepoError>(RepoError::StoreFailure)
            &&& middle == state
            &&& later <= token ==> second == Err::<DocumentVersion, RepoError>(
                RepoError::StoreFailure,
            )
        },
{
    let i = state.version_row(document_id, version_id);
    assert(state.is_version(i, document_id, version_id));
    let row = state.versions[i];
    if next_token(token, now) <= i64::MAX {
        lemma_with_row_wf(
            state,
            i,
            VersionRecord {
                content: first_content,
                updated_at: next_token(token, now) as i64,
                ..row
            },
        );
        assert(middle.is_version(i, document_id, version_id));
        lemma_version_row(middle, i, document_id, version_id);
    }
}

/// Two writers that present the same token to move a version, whatever the
/// clock reads for either: the one that comes first, with a legal transition,
/// succeeds and leaves the version with a new token; the other is a
/// `ConcurrencyConflict` that changes nothing and carries the version in the
/// state and with the token that the first left. The one exception is a token
/// that is the last time the store can hold, with a clock that has not moved
/// past it: then the first writer meets a failure of the store.
pub proof fn law_stale_transition_conflicts(
    state: DocumentsState,
    middle: DocumentsState,
    after: DocumentsState,
    first: Result<DocumentVersion, RepoError>,
    second: Result<DocumentVersion, RepoError>,
    document_id: Id,
    version_id: Id,
    token: Timestamp,
    first_target: DocumentVersionState,
    now: Timestamp,
    second_target: DocumentVersionState,
    later: Timestamp,
)
    requires
        state.wf(),
        state.has_version(document_id, version_id),
        state.versions[state.version_row(document_id, version_id)].updated_at == token,
        state.versions[state.version_row(document_id, version_id)].version_state.may_enter(
            first_target,
        ),
        state.changes_state(middle, first, document_id, version_id, first_target, token, now),
        middle.changes_state(after, second, document_id, version_id, second_target, token, later),
    ensures
        if next_token(token, now) <= i64::MAX {
            &&& first matches Ok(updated)
            &&& updated@.version_state == first_target
            &&& updated@.updated_at == next_token(token, now)
            &&& updated@.updated_at != token
            &&& second matches Err(RepoError::ConcurrencyConflict(current))
            &&& current@ == updated@
            &&& after == middle
        } else {
            first == Err::<DocumentVersion, RepoError>(RepoError::StoreFailure) && middle == state
        },
{
    let i = state.version_row(document_id, version_id);
    assert(state.is_version(i, document_id, version_id));
    let row = state.versions[i];
    if next_token(token, now) <= i64::MAX {
        lemma_with_row_wf(
            state,
            i,
            VersionRecord {
                version_state: first_target,
                updated_at: next_token(token, now) as i64,
                ..row
            },
        );
        assert(middle.is_version(i, document_id, version_id));
        lemma_version_row(middle, i, document_id, version_id);
    }
}

/// The version in row `i` has an owner.
pub open spec fn is_owned(documents: DocumentsState, roles: PermissionState, i: int) -> bool {
    exists|user_id: Id|
        roles.has_role(
            user_id,
            documents.versions[i].document_id,
            documents.versions[i].version_id,
            DocumentVersionRole::Owner,
        )
}

/// No version is without an owner.
pub open spec fn every_version_is_owned(documents: DocumentsState, roles: PermissionState) -> bool {
    forall|i: int| 0 <= i < documents.versions.len() ==> #[trigger] is_owned(documents, roles, i)
}

/// Creating a version leaves no version without an owner.
pub proof fn law_created_versions_are_owned(
    state: DocumentsState,
    after: DocumentsState,
    roles: PermissionState,
    roles_after: PermissionState,
    result: Result<DocumentVersion, RepoError>,
    user_id: Id,
    document_id: Id,
    version_id: Id,
    now: Timestamp,
    version_name: Seq<char>,
    content: Seq<char>,
    parents: Seq<Id>,
)
    requires
        roles.wf(),
        every_version_is_owned(state, roles),
        state.creates_version(
            after,
            roles,
            roles_after,
            result,
            user_id,
            document_id,
            version_id,
            now,
            version_name,
            content,
            parents,
        ),
    ensures
        every_version_is_owned(after, roles_after),
{
    if result is Ok {
        let grant = ownership(user_id, document_id, version_id);
        assert forall|i: int| 0 <= i < after.versions.len() implies #[trigger] is_owned(
            after,
            roles_after,
            i,
        ) by {
            if i < state.versions.len() {
                assert(is_owned(state, roles, i));
                let owner = choose|owner: Id|
                    roles.has_role(
                        owner,
                        state.versions[i].document_id,
                        state.versions[i].version_id,
                        DocumentVersionRole::Owner,
                    );
                let held = ownership(
                    owner,
                    state.versions[i].document_id,
                    state.versions[i].version_id,
                );
                law_grants_are_independent(roles, grant, held);
                assert(roles_after.has_role(
                    owner,
                    after.versions[i].document_id,
                    after.versions[i].version_id,
                    DocumentVersionRole::Owner,
                ));
            } else {
                law_grants_are_independent(roles, grant, grant);
                assert(roles_after.has_role(
                    user_id,
                    after.versions[i].document_id,
                    after.versions[i].version_id,
                    DocumentVersionRole::Owner,
                ));
            }
        }
    } else {
        assert forall|i: int| 0 <= i < after.versions.len() implies #[trigger] is_owned(
            after,
            roles_after,
            i,
        ) by {
            assert(is_owned(state, roles, i));
        }
    }
}

/// Creating a document leaves no version without an owner.
pub proof fn law_created_documents_are_owned(
    state: DocumentsState,
    after: DocumentsState,
    roles: PermissionState,
    roles_after: PermissionState,
    result: Result<DocumentWithInitialVersion, RepoError>,
    user_id: Id,
    document_id: Id,
    version_id: Id,
    now: Timestamp,
    document_name: Seq<char>,
    version_name: Seq<char>,
    content: Seq<char>,
)
    requires
        roles.wf(),
        every_version_is_owned(state, roles),
        state.creates_document(
            after,
            roles,
            roles_after,
            result,
            user_id,
            document_id,
            version_id,
            now,
            document_name,
            version_name,
            content,
        ),
    ensures
        every_version_is_owned(after, roles_after),
{
    if result is Ok {
        let grant = ownership(user_id, document_id, version_id);
        assert forall|i: int| 0 <= i < after.versions.len() implies #[trigger] is_owned(
            after,
            roles_after,
            i,
        ) by {
            if i < state.versions.len() {
                assert(is_owned(state, roles, i));
                let owner = choose|owner: Id|
                    roles.has_role(
                        owner,
                        state.versions[i].document_id,
                        state.versions[i].version_id,
                        DocumentVersionRole::Owner,
                    );
                let held = ownership(
                    owner,
                    state.versions[i].document_id,
                    state.versions[i].version_id,
                );
                law_grants_are_independent(roles, grant, held);
                assert(roles_after.has_role(
                    owner,
                    after.versions[i].document_id,
                    after.versions[i].version_id,
                    DocumentVersionRole::Owner,
                ));
            } else {
                law_grants_are_independent(roles, grant, grant);
                assert(roles_after.has_role(
                    user_id,
                    after.versions[i].document_id,
                    after.versions[i].version_id,
                    DocumentVersionRole::Owner,
                ));
            }
        }
    } else {
        assert forall|i: int| 0 <= i < after.versions.len() implies #[trigger] is_owned(
            after,
            roles_after,
            i,
        ) by {
            assert(is_owned(state, roles, i));
        }
    }
}

/// Granting and revoking by request leave no version without an owner.
pub proof fn law_requests_keep_versions_owned(
    documents: DocumentsState,
    roles: PermissionState,
    roles_after: PermissionState,
    events: EventsState,
    events_after: EventsState,
    result: Result<bool, RepoError>,
    user_id: Id,
    document_id: Id,
    version_id: Id,
    role: DocumentVersionRole,
    event_id: Id,
    now: Timestamp,
)
    requires
        roles.wf(),
        every_version_is_owned(documents, roles),
        handles_grant(
            documents,
            roles,
            roles_after,
            events,
            events_after,
            result,
            user_id,
            document_id,
            version_id,
            role,
            event_id,
            now,
        ) || handles_revoke(
            roles,
            roles_after,
            events,
            events_after,
            result,
            user_id,
            document_id,
            version_id,
            role,
            event_id,
            now,
        ),
    ensures
        every_version_is_owned(documents, roles_after),
{
    assert forall|i: int| 0 <= i < documents.versions.len() implies #[trigger] is_owned(
        documents,
        roles_after,
        i,
    ) by {
        assert(is_owned(documents, roles, i));
        let owner = choose|owner: Id|
            roles.has_role(
                owner,
                documents.versions[i].document_id,
                documents.versions[i].version_id,
                DocumentVersionRole::Owner,
            );
        law_ownership_is_not_for_request(
            documents,
            roles,
            roles_after,
            events,
            events_after,
            result,
            user_id,
            document_id,
            version_id,
            role,
            event_id,
            now,
            owner,
            documents.versions[i].document_id,
            documents.versions[i].version_id,
        );
    }
}

/// Moving a version, replacing its content and renaming a document leave no
/// version without an owner.
pub proof fn law_changes_keep_versions_owned(
    state: DocumentsState,
    after: DocumentsState,
    roles: PermissionState,
    result: Result<DocumentVersion, RepoError>,
    renamed: Result<bool, RepoError>,
    document_id: Id,
    version_id: Id,
    target: DocumentVersionState,
    content: Seq<char>,
    document_name: Seq<char>,
    expected: Timestamp,
    now: Timestamp,
)
    requires
        state.wf(),
        every_version_is_owned(state, roles),
        state.changes_state(after, result, document_id, version_id, target, expected, now)
            || state.updates_content(
            after,
            result,
            document_id,
            version_id,
            content,
            expected,
            now,
        ) || state.renames(after, renamed, document_id, document_name),
    ensures
        every_version_is_owned(after, roles),
{
    assert forall|i: int| 0 <= i < after.versions.len() implies #[trigger] is_owned(
        after,
        roles,
        i,
    ) by {
        assert(after.versions.len() == state.versions.len());
        assert(is_owned(state, roles, i));
        assert(after.versions[i].document_id == state.versions[i].document_id);
        assert(after.versions[i].version_id == state.versions[i].version_id);
    }
}

/// Every grant is a grant on a version that exists.
pub open spec fn grants_are_grounded(documents: DocumentsState, roles: PermissionState) -> bool {
    forall|k: int|
        0 <= k < roles.grants.len() ==> documents.has_version(
            (#[trigger] roles.grants[k]).document_id,
            roles.grants[k].version_id,
        )
}

/// Where every grant is a grant on a version that exists, creating a version
/// adds exactly one version, one edge for each parent and one grant, the
/// creator's ownership of the new version; and every grant is still a grant
/// on a version that exists.
pub proof fn law_creation_adds_one_owner(
    state: DocumentsState,
    after: DocumentsState,
    roles: PermissionState,
    roles_after: PermissionState,
    result: Result<DocumentVersion, RepoError>,
    user_id: Id,
    document_id: Id,
    version_id: Id,
    now: Timestamp,
    version_name: Seq<char>,
    content: Seq<char>,
    parents: Seq<Id>,
)
    requires
        state.wf(),
        grants_are_grounded(state, roles),
        state.creates_version(
            after,
            roles,
            roles_after,
            result,
            user_id,
            document_id,
            version_id,
            now,
            version_name,
            content,
            parents,
        ),
    ensures
        grants_are_grounded(after, roles_after),
        result is Ok ==> {
            &&& after.versions.len() == state.versions.len() + 1
            &&& after.dependencies.len() == state.dependencies.len() + parents.len()
            &&& parents.no_duplicates()
            &&& roles_after.grants == roles.grants.push(
                ownership(user_id, document_id, version_id),
            )
        },
{
    if result is Ok {
        let grant = ownership(user_id, document_id, version_id);
        if roles.grants.contains(grant) {
            let k = choose|k: int| 0 <= k < roles.grants.len() && roles.grants[k] == grant;
            assert(state.has_version(roles.grants[k].document_id, roles.grants[k].version_id));
        }
        assert(after.is_version(state.versions.len() as int, document_id, version_id));
        assert forall|k: int| 0 <= k < roles_after.grants.len() implies after.has_version(
            (#[trigger] roles_after.grants[k]).document_id,
            roles_after.grants[k].version_id,
        ) by {
            if k < roles.grants.len() {
                let held = roles.grants[k];
                assert(state.has_version(held.document_id, held.version_id));
                let row = state.version_row(held.document_id, held.version_id);
                assert(state.is_version(row, held.document_id, held.version_id));
                assert(after.is_version(row, held.document_id, held.version_id));
            }
        }
    }
}

/// The same of creating a document: exactly one document, one version and one
/// grant are added, the creator's ownership of the initial version.
pub proof fn law_document_creation_adds_one_owner(
    state: DocumentsState,
    after: DocumentsState,
    roles: PermissionState,
    roles_after: PermissionState,
    result: Result<DocumentWithInitialVersion, RepoError>,
    user_id: Id,
    document_id: Id,
    version_id: Id,
    now: Timestamp,
    document_name: Seq<char>,
    version_name: Seq<char>,
    content: Seq<char>,
)
    requires
        state.wf(),
        grants_are_grounded(state, roles),
        state.creates_document(
            after,
            roles,
            roles_after,
            result,
            user_id,
            document_id,
            version_id,
            now,
            document_name,
            version_name,
            content,
        ),
    ensures
        grants_are_grounded(after, roles_after),
        result is Ok ==> {
            &&& after.documents.len() == state.documents.len() + 1
            &&& after.versions.len() == state.versions.len() + 1
            &&& after.dependencies == state.dependencies
            &&& roles_after.grants == roles.grants.push(
                ownership(user_id, document_id, version_id),
            )
        },
{
    if result is Ok {
        let grant = ownership(user_id, document_id, version_id);
        crate::repositories::documents::lemma_nothing_of_missing_document(state, document_id);
        if roles.grants.contains(grant) {
            let k = choose|k: int| 0 <= k < roles.grants.len() && roles.grants[k] == grant;
            assert(state.has_version(roles.grants[k].document_id, roles.grants[k].version_id));
            let row = state.version_row(document_id, version_id);
            assert(state.is_version(row, document_id, version_id));
        }
        assert(after.is_version(state.versions.len() as int, document_id, version_id));
        assert forall|k: int| 0 <= k < roles_after.grants.len() implies after.has_version(
            (#[trigger] roles_after.grants[k]).document_id,
            roles_after.grants[k].version_id,
        ) by {
            if k < roles.grants.len() {
                let held = roles.grants[k];
                assert(state.has_version(held.document_id, held.version_id));
                let row = state.version_row(held.document_id, held.version_id);
                assert(state.is_version(row, held.document_id, held.version_id));
                assert(after.is_version(row, held.document_id, held.version_id));
            }
        }
    }
}

/// Granting and revoking by request keep every grant a grant on a version
/// that exists: a role is granted on existing versions only.
pub proof fn law_requests_keep_grants_grounded(
    documents: DocumentsState,
    roles: PermissionState,
    roles_after: PermissionState,
    events: EventsState,
    events_after: EventsState,
    result: Result<bool, RepoError>,
    user_id: Id,
    document_id: Id,
    version_id: Id,
    role: DocumentVersionRole,
    event_id: Id,
    now: Timestamp,
)
    requires
        roles.wf(),
        grants_are_grounded(documents, roles),
        handles_grant(
            documents,
            roles,
            roles_after,
            events,
            events_after,
            result,
            user_id,
            document_id,
            version_id,
            role,
            event_id,
            now,
        ) || handles_revoke(
            roles,
            roles_after,
            events,
            events_after,
            result,
            user_id,
            document_id,
            version_id,
            role,
            event_id,
            now,
        ),
    ensures
        grants_are_grounded(documents, roles_after),
{
    let grant = RoleGrant { user_id, document_id, version_id, role };
    assert forall|k: int| 0 <= k < roles_after.grants.len() implies documents.has_version(
        (#[trigger] roles_after.grants[k]).document_id,
        roles_after.grants[k].version_id,
    ) by {
        let held = roles_after.grants[k];
        law_grants_are_independent(roles, grant, held);
        if held != grant {
            assert(roles_after.grants.contains(held));
            assert(roles.grants.contains(held));
            let at = choose|at: int| 0 <= at < roles.grants.len() && roles.grants[at] == held;
            assert(documents.has_version(roles.grants[at].document_id, roles.grants[at].version_id));
        } else if roles.grants.contains(grant) {
            let at = choose|at: int| 0 <= at < roles.grants.len() && roles.grants[at] == grant;
            assert(documents.has_version(roles.grants[at].document_id, roles.grants[at].version_id));
        }
    }
}

/// Moving a version, replacing its content and renaming a document keep
/// every grant a grant on a version that exists.
pub proof fn law_changes_keep_grants_grounded(
    state: DocumentsState,
    after: DocumentsState,
    roles: PermissionState,
    result: Result<DocumentVersion, RepoError>,
    renamed: Result<bool, RepoError>,
    document_id: Id,
    version_id: Id,
    target: DocumentVersionState,
    content: Seq<char>,
    document_name: Seq<char>,
    expected: Timestamp,
    now: Timestamp,
)
    requires
        state.wf(),
        grants_are_grounded(state, roles),
        state.changes_state(after, result, document_id, version_id, target, expected, now)
            || state.updates_content(
            after,
            result,
            document_id,
            version_id,
            content,
            expected,
            now,
        ) || state.renames(after, renamed, document_id, document_name),
    ensures
        grants_are_grounded(after, roles),
{
    assert forall|k: int| 0 <= k < roles.grants.len() implies after.has_version(
        (#[trigger] roles.grants[k]).document_id,
        roles.grants[k].version_id,
    ) by {
        let held = roles.grants[k];
        assert(state.has_version(held.document_id, held.version_id));
        let row = state.version_row(held.document_id, held.version_id);
        assert(state.is_version(row, held.document_id, held.version_id));
        assert(after.versions.len() == state.versions.len());
        assert(after.versions[row].document_id == state.versions[row].document_id);
        assert(after.versions[row].version_id == state.versions[row].version_id);
        assert(after.is_version(row, held.document_id, held.version_id));
    }
}

/// The version graph of a document set: a version has no parents exactly if
/// it is the initial version of its set, and every parent of a version is an
/// existing version of the same set, recorded before it.
pub proof fn law_set_version_graph(state: SetsState, i: int)
    requires
        state.wf(),
        0 <= i < state.versions.len(),
    ensures
        state.is_initial(i) <==> state.version_at(i).parents.len() == 0,
        forall|k: int|
            0 <= k < state.version_at(i).parents.len() ==> state.has_version(
                state.versions[i].document_set_id,
                #[trigger] state.version_at(i).parents[k],
            ) && state.version_row(
                state.versions[i].document_set_id,
                state.version_at(i).parents[k],
            ) < i,
{
    let d = state.versions[i].document_set_id;
    let v = state.versions[i].set_version_id;
    let parents = state.version_at(i).parents;
    lemma_parents_among(state.dependencies, d, v);
    assert(state.is_initial(i) <==> !state.has_parent(d, v));
    if state.has_parent(d, v) {
        let k = choose|k: int| state.is_parent_edge(k, d, v);
        assert(state.dependencies[k].graph_id == d);
    }
    if parents.len() > 0 {
        let k = choose|k: int|
            0 <= k < state.dependencies.len() && (#[trigger] state.dependencies[k]).graph_id == d
                && state.dependencies[k].child_version_id == v;
        assert(state.is_parent_edge(k, d, v));
    }
    assert forall|k: int| 0 <= k < parents.len() implies state.has_version(
        d,
        #[trigger] parents[k],
    ) && state.version_row(d, parents[k]) < i by {
        let parent = parents[k];
        assert(parents.contains(parent));
        let edge = Dependency { graph_id: d, parent_version_id: parent, child_version_id: v };
        assert(state.dependencies.contains(edge));
        let e = choose|e: int| 0 <= e < state.dependencies.len() && state.dependencies[e] == edge;
        assert(state.edge_grounded(e));
        let (p, c) = choose|p: int, c: int|
            p < c && #[trigger] state.is_version(p, d, parent) && #[trigger] state.is_version(
                c,
                d,
                v,
            );
        crate::repositories::document_sets::lemma_version_row(state, p, d, parent);
        assert(state.is_version(i, d, v));
        crate::repositories::document_sets::lemma_version_row(state, c, d, v);
        crate::repositories::document_sets::lemma_version_row(state, i, d, v);
    }
}

/// Names are unique within a document set: of two requests for the same name
/// in the same set, each acceptable on its own, the one that comes first
/// succeeds and the other is a `UniqueConflict` that changes nothing.
pub proof fn law_one_name_one_set_version(
    state: SetsState,
    middle: SetsState,
    after: SetsState,
    documents: DocumentsState,
    first: Result<SetVersion, RepoError>,
    second: Result<SetVersion, RepoError>,
    document_set_id: Id,
    set_version_name: Seq<char>,
    first_id: Id,
    now: Timestamp,
    first_members: Seq<(Id, Id)>,
    first_parents: Seq<Id>,
    second_id: Id,
    later: Timestamp,
    second_members: Seq<(Id, Id)>,
    second_parents: Seq<Id>,
)
    requires
        state.wf(),
        state.version_refusal(
            documents,
            document_set_id,
            first_id,
            set_version_name,
            first_members,
            first_parents,
        ) is None,
        state.version_refusal(
            documents,
            document_set_id,
            second_id,
            set_version_name,
            second_members,
            second_parents,
        ) is None,
        state.creates_version(
            middle,
            documents,
            first,
            document_set_id,
            first_id,
            now,
            set_version_name,
            first_members,
            first_parents,
        ),
        middle.creates_version(
            after,
            documents,
            second,
            document_set_id,
            second_id,
            later,
            set_version_name,
            second_members,
            second_parents,
        ),
    ensures
        first is Ok,
        second == Err::<SetVersion, RepoError>(RepoError::UniqueConflict),
        after == middle,
{
    let n = state.versions.len() as int;
    assert(middle.is_version_named(n, document_set_id, set_version_name));
    let row = state.set_row(document_set_id);
    assert(state.is_set(row, document_set_id));
    assert(middle.is_set(row, document_set_id));
}

} // verus!
