//! Granting and revoking roles on a version. Ownership comes with creating a
//! version and with nothing else: it can be neither granted nor revoked here.

use vstd::prelude::*;

use crate::ident::{current_time, fresh_id, Id, Timestamp};
use crate::models::event::EventType;
use crate::models::role::DocumentVersionRole;
use crate::repositories::documents::{DocumentsRepository, DocumentsState};
use crate::repositories::events::{EventsRepository, EventsState};
use crate::repositories::permission::{PermissionRepository, PermissionState, RoleGrant};
use crate::repositories::RepoError;

verus! {

/// What a request to grant `role` to `user_id` on a version does, at the time
/// `now` and with `event_id` for the notification.
///
/// Asking for `Owner` is an invalid request, and a version that does not
/// exist is `NotFound`; neither changes anything. Any other role is granted
/// unless the user holds it already, and the result tells which; a user that
/// gains a role is notified, unless the notification's identifier is in use.
pub open spec fn handles_grant(
    documents: DocumentsState,
    roles: PermissionState,
    roles_after: PermissionState,
    events: EventsState,
    events_after: EventsState,
    result: Result<bool, RepoError>,
    user_id: Id,
    document_id: Id,
    version_id: Id,
    role: DocumentVersionRole,
    event_id: Id,
    now: Timestamp,
) -> bool {
    let grant = RoleGrant { user_id, document_id, version_id, role };
    if role == DocumentVersionRole::Owner {
        result == Err::<bool, RepoError>(RepoError::InvalidRequest) && roles_after == roles
            && events_after == events
    } else if !documents.has_version(document_id, version_id) {
        result == Err::<bool, RepoError>(RepoError::NotFound) && roles_after == roles
            && events_after == events
    } else {
        &&& roles_after == roles.granting(grant)
        &&& result == Ok::<bool, RepoError>(!roles.grants.contains(grant))
        &&& events_after == if roles.grants.contains(grant) {
            events
        } else {
            events.notified(
                seq![user_id],
                seq![event_id],
                now,
                document_id,
                version_id,
                EventType::RoleAdded(role),
            )
        }
    }
}

/// What a request to revoke `role` from `user_id` on a version does, at the
/// time `now` and with `event_id` for the notification.
///
/// Asking for `Owner` is an invalid request and changes nothing. Any other
/// role is taken if the user holds it, and the result tells whether; a user
/// that loses a role is notified, unless the notification's identifier is in
/// use.
pub open spec fn handles_revoke(
    roles: PermissionState,
    roles_after: PermissionState,
    events: EventsState,
    events_after: EventsState,
    result: Result<bool, RepoError>,
    user_id: Id,
    document_id: Id,
    version_id: Id,
    role: DocumentVersionRole,
    event_id: Id,
    now: Timestamp,
) -> bool {
    let grant = RoleGrant { user_id, document_id, version_id, role };
    if role == DocumentVersionRole::Owner {
        result == Err::<bool, RepoError>(RepoError::InvalidRequest) && roles_after == roles
            && events_after == events
    } else {
        &&& roles_after == roles.revoking(grant)
        &&& result == Ok::<bool, RepoError>(roles.grants.contains(grant))
        &&& events_after == if roles.grants.contains(grant) {
            events.notified(
                seq![user_id],
                seq![event_id],
                now,
                document_id,
                version_id,
                EventType::RoleRemoved(role),
            )
        } else {
            events
        }
    }
}

/// Notifies `user_id` alone of `event_type`, under `event_id` at the time `now`.
fn notify_one(
    events: &mut EventsRepository,
    user_id: Id,
    event_id: Id,
    now: Timestamp,
    document_id: Id,
    version_id: Id,
    event_type: EventType,
)
    requires
        old(events)@.wf(),
    ensures
        final(events)@.wf(),
        final(events)@ == old(events)@.notified(
            seq![user_id],
            seq![event_id],
            now,
            document_id,
            version_id,
            event_type,
        ),
{
    let mut recipients: Vec<Id> = Vec::new();
    recipients.push(user_id);
    let mut event_ids: Vec<Id> = Vec::new();
    event_ids.push(event_id);
    assert(recipients@ == seq![user_id]);
    assert(event_ids@ == seq![event_id]);
    events.notify_with(&recipients, &event_ids, now, document_id, version_id, event_type);
}

/// Grants `role` to `user_id` on version `version_id` of `document_id`, at
/// the time `now`; the user is notified under `event_id`.
pub fn grant_version_role_with(
    documents: &DocumentsRepository,
    roles: &mut PermissionRepository,
    events: &mut EventsRepository,
    document_id: Id,
    version_id: Id,
    user_id: Id,
    role: DocumentVersionRole,
    event_id: Id,
    now: Timestamp,
) -> (result: Result<bool, RepoError>)
    requires
        old(roles)@.wf(),
        old(events)@.wf(),
    ensures
        final(roles)@.wf(),
        final(events)@.wf(),
        handles_grant(
            documents@,
            old(roles)@,
            final(roles)@,
            old(events)@,
            final(events)@,
            result,
            user_id,
            document_id,
            version_id,
            role,
            event_id,
            now,
        ),
{
    match role {
        DocumentVersionRole::Owner => {
            return Err(RepoError::InvalidRequest);
        },
        _ => {},
    }
    if !documents.contains_version(document_id, version_id) {
        return Err(RepoError::NotFound);
    }
    let added = roles.grant_document_version_role(user_id, document_id, version_id, role);
    if added {
        notify_one(
            events,
            user_id,
            event_id,
            now,
            document_id,
            version_id,
            EventType::RoleAdded(role),
        );
    }
    Ok(added)
}

/// Grants `role` to `user_id` on version `version_id` of `document_id`, at
/// the current time; the user is notified under a fresh identifier.
pub fn grant_version_role(
    documents: &DocumentsRepository,
    roles: &mut PermissionRepository,
    events: &mut EventsRepository,
    document_id: Id,
    version_id: Id,
    user_id: Id,
    role: DocumentVersionRole,
) -> (result: Result<bool, RepoError>)
    requires
        old(roles)@.wf(),
        old(events)@.wf(),
    ensures
        final(roles)@.wf(),
        final(events)@.wf(),
        exists|event_id: Id, now: Timestamp| #[trigger]
            handles_grant(
                documents@,
                old(roles)@,
                final(roles)@,
                old(events)@,
                final(events)@,
                result,
                user_id,
                document_id,
                version_id,
                role,
                event_id,
                now,
            ),
{
    let event_id = fresh_id();
    let now = current_time();
    grant_version_role_with(
        documents,
        roles,
        events,
        document_id,
        version_id,
        user_id,
        role,
        event_id,
        now,
    )
}

/// Revokes `role` from `user_id` on version `version_id` of `document_id`,
/// at the time `now`; the user is notified under `event_id`.
pub fn revoke_version_role_with(
    roles: &mut PermissionRepository,
    events: &mut EventsRepository,
    document_id: Id,
    version_id: Id,
    user_id: Id,
    role: DocumentVersionRole,
    event_id: Id,
    now: Timestamp,
) -> (result: Result<bool, RepoError>)
    requires
        old(roles)@.wf(),
        old(events)@.wf(),
    ensures
        final(roles)@.wf(),
        final(events)@.wf(),
        handles_revoke(
            old(roles)@,
            final(roles)@,
            old(events)@,
            final(events)@,
            result,
            user_id,
            document_id,
            version_id,
            role,
            event_id,
            now,
        ),
{
    match role {
        DocumentVersionRole::Owner => {
            return Err(RepoError::InvalidRequest);
        },
        _ => {},
    }
    let removed = roles.revoke_document_version_role(user_id, document_id, version_id, role);
    if removed {
        notify_one(
            events,
            user_id,
            event_id,
            now,
            document_id,
            version_id,
            EventType::RoleRemoved(role),
        );
    }
    Ok(removed)
}

/// Revokes `role` from `user_id` on version `version_id` of `document_id`,
/// at the current time; the user is notified under a fresh identifier.
pub fn revoke_version_role(
    roles: &mut PermissionRepository,
    events: &mut EventsRepository,
    document_id: Id,
    version_id: Id,
    user_id: Id,
    role: DocumentVersionRole,
) -> (result: Result<bool, RepoError>)
    requires
        old(roles)@.wf(),
        old(events)@.wf(),
    ensures
        final(roles)@.wf(),
        final(events)@.wf(),
        exists|event_id: Id, now: Timestamp| #[trigger]
            handles_revoke(
                old(roles)@,
                final(roles)@,
                old(events)@,
                final(events)@,
                result,
                user_id,
                document_id,
                version_id,
                role,
                event_id,
                now,
            ),
{
    let event_id = fresh_id();
    let now = current_time();
    revoke_version_role_with(roles, events, document_id, version_id, user_id, role, event_id, now)
}

} // verus!
