//! Moving a version through its lifecycle.

use vstd::prelude::*;

use crate::ident::{current_time, fresh_ids, Id, Timestamp};
use crate::models::event::EventType;
use crate::models::role::DocumentVersionRole;
use crate::models::version::{DocumentVersion, VersionChangeState};
use crate::models::version_state::DocumentVersionState;
use crate::repositories::documents::{DocumentsRepository, DocumentsState};
use crate::repositories::events::{EventsRepository, EventsState};
use crate::repositories::permission::{PermissionRepository, PermissionState};
use crate::repositories::RepoError;

verus! {

/// `user_id` holds, on that very version, a role that entitles to request `target`.
pub open spec fn may_request(
    roles: PermissionState,
    user_id: Id,
    document_id: Id,
    version_id: Id,
    target: DocumentVersionState,
) -> bool {
    exists|role: DocumentVersionRole| #[trigger]
        target.open_to(role) && roles.has_role(user_id, document_id, version_id, role)
}

/// What a user's request to move a version to `target` does, at the time
/// `now` and with `event_ids` for the notifications.
///
/// Without an entitling role the request is `Forbidden` and nothing changes.
/// Otherwise the store decides, by token and transition table; and where it
/// applies the change, every holder of a role on the version is notified of
/// it, each with the identifier at its place, as `EventsState::notified` has
/// it. Where the change is not applied, nobody is notified.
pub open spec fn handles_state_change(
    documents: DocumentsState,
    documents_after: DocumentsState,
    roles: PermissionState,
    events: EventsState,
    events_after: EventsState,
    result: Result<DocumentVersion, RepoError>,
    user_id: Id,
    document_id: Id,
    version_id: Id,
    target: DocumentVersionState,
    expected: Timestamp,
    now: Timestamp,
    event_ids: Seq<Id>,
) -> bool {
    if !may_request(roles, user_id, document_id, version_id, target) {
        result == Err::<DocumentVersion, RepoError>(RepoError::Forbidden) && documents_after
            == documents && events_after == events
    } else {
        &&& documents.changes_state(
            documents_after,
            result,
            document_id,
            version_id,
            target,
            expected,
            now,
        )
        &&& events_after == if result is Ok {
            events.notified(
                roles.holders(document_id, version_id),
                event_ids,
                now,
                document_id,
                version_id,
                EventType::StatusChange(target),
            )
        } else {
            events
        }
    }
}

/// Whether `user_id` holds a role that entitles to request `target` on that version.
pub fn is_entitled(
    roles: &PermissionRepository,
    user_id: Id,
    document_id: Id,
    version_id: Id,
    target: DocumentVersionState,
) -> (entitled: bool)
    ensures
        entitled == may_request(roles@, user_id, document_id, version_id, target),
{
    let required = target.required_roles();
    let entitled = roles.does_user_have_document_version_roles(
        user_id,
        document_id,
        version_id,
        required.as_slice(),
    );
    proof {
        if entitled {
            let k = choose|k: int|
                0 <= k < required@.len() && roles@.has_role(
                    user_id,
                    document_id,
                    version_id,
                    #[trigger] required@[k],
                );
            assert(required@.contains(required@[k]));
            assert(target.open_to(required@[k]));
        }
        if may_request(roles@, user_id, document_id, version_id, target) {
            let role = choose|role: DocumentVersionRole| #[trigger]
                target.open_to(role) && roles@.has_role(user_id, document_id, version_id, role);
            assert(required@.contains(role));
            let k = choose|k: int| 0 <= k < required@.len() && required@[k] == role;
            assert(roles@.has_role(user_id, document_id, version_id, required@[k]));
        }
    }
    entitled
}

/// Moves version `version_id` of `document_id` to the requested state on
/// behalf of `user_id`, at the time `now`; the holders of a role on the
/// version are notified under `event_ids`, in the order of `role_holders`.
pub fn change_state_at(
    documents: &mut DocumentsRepository,
    roles: &PermissionRepository,
    events: &mut EventsRepository,
    user_id: Id,
    document_id: Id,
    version_id: Id,
    data: VersionChangeState,
    now: Timestamp,
    event_ids: &Vec<Id>,
) -> (result: Result<DocumentVersion, RepoError>)
    requires
        old(documents)@.wf(),
        old(events)@.wf(),
    ensures
        final(documents)@.wf(),
        final(events)@.wf(),
        handles_state_change(
            old(documents)@,
            final(documents)@,
            roles@,
            old(events)@,
            final(events)@,
            result,
            user_id,
            document_id,
            version_id,
            data.new_state,
            data.updated_at,
            now,
            event_ids@,
        ),
        result matches Ok(updated) ==> updated.updated_at != data.updated_at,
{
    if !is_entitled(roles, user_id, document_id, version_id, data.new_state) {
        return Err(RepoError::Forbidden);
    }
    let result = documents.change_state_at(
        document_id,
        version_id,
        data.new_state,
        data.updated_at,
        now,
    );
    if result.is_ok() {
        let holders = roles.role_holders(document_id, version_id);
        events.notify_with(
            &holders,
            event_ids,
            now,
            document_id,
            version_id,
            EventType::StatusChange(data.new_state),
        );
    }
    result
}

/// Moves version `version_id` of `document_id` to the requested state on
/// behalf of `user_id`, at the current time, and notifies the holders of a
/// role on the version under fresh identifiers.
pub fn change_state(
    documents: &mut DocumentsRepository,
    roles: &PermissionRepository,
    events: &mut EventsRepository,
    user_id: Id,
    document_id: Id,
    version_id: Id,
    data: VersionChangeState,
) -> (result: Result<DocumentVersion, RepoError>)
    requires
        old(documents)@.wf(),
        old(events)@.wf(),
    ensures
        final(documents)@.wf(),
        final(events)@.wf(),
        exists|now: Timestamp, event_ids: Seq<Id>|
            event_ids.len() == roles@.holders(document_id, version_id).len()
                && #[trigger] handles_state_change(
                old(documents)@,
                final(documents)@,
                roles@,
                old(events)@,
                final(events)@,
                result,
                user_id,
                document_id,
                version_id,
                data.new_state,
                data.updated_at,
                now,
                event_ids,
            ),
        result matches Ok(updated) ==> updated.updated_at != data.updated_at,
{
    let holders = roles.role_holders(document_id, version_id);
    let event_ids = fresh_ids(holders.len());
    let now = current_time();
    change_state_at(documents, roles, events, user_id, document_id, version_id, data, now, &event_ids)
}

} // verus!
