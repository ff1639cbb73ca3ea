//! Notifications recorded for the users a change concerns.

use vstd::prelude::*;

use crate::ident::{Id, Timestamp};
use crate::models::role::DocumentVersionRole;
use crate::models::version_state::DocumentVersionState;

verus! {

/// What a notification reports.
#[derive(Debug, Clone, Copy, PartialEq, Eq, Structural)]
pub enum EventType {
    RoleAdded(DocumentVersionRole),
    RoleRemoved(DocumentVersionRole),
    StatusChange(DocumentVersionState),
}

/// A notification for one user about one version. Once recorded, only its
/// `seen` flag ever changes.
#[derive(Debug, Clone, Copy, PartialEq, Eq, Structural)]
pub struct Event {
    pub event_id: Id,
    pub user_id: Id,
    pub document_id: Id,
    pub version_id: Id,
    pub event_type: EventType,
    pub seen: bool,
    pub created_at: Timestamp,
}

impl EventType {
    /// The number under which the kind of event is persisted.
    pub open spec fn kind_code(self) -> i16 {
        match self {
            EventType::RoleAdded(_) => 0,
            EventType::RoleRemoved(_) => 1,
            EventType::StatusChange(_) => 2,
        }
    }

    /// The persisted role column: the role's code for a role event, else empty.
    pub open spec fn role_code(self) -> Option<i16> {
        match self {
            EventType::RoleAdded(role) => Some(role.code()),
            EventType::RoleRemoved(role) => Some(role.code()),
            EventType::StatusChange(_) => None,
        }
    }

    /// The persisted state column: the state's code for a status change, else empty.
    pub open spec fn state_code(self) -> Option<i16> {
        match self {
            EventType::RoleAdded(_) => None,
            EventType::RoleRemoved(_) => None,
            EventType::StatusChange(state) => Some(state.code()),
        }
    }

    /// The event persisted under `kind`, given what the role and state columns decode to.
    pub open spec fn of_columns(
        kind: i16,
        role: DocumentVersionRole,
        state: DocumentVersionState,
    ) -> EventType {
        if kind == 0 {
            EventType::RoleAdded(role)
        } else if kind == 1 {
            EventType::RoleRemoved(role)
        } else {
            EventType::StatusChange(state)
        }
    }
}

impl Event {
    /// The order in which a user's events are listed: unseen before seen, and
    /// among equals the later one first.
    pub open spec fn lists_before(self, other: Event) -> bool {
        if self.seen == other.seen {
            self.created_at >= other.created_at
        } else {
            !self.seen
        }
    }

    /// Decides `lists_before`.
    pub fn comes_before(&self, other: &Event) -> (before: bool)
        ensures
            before == self.lists_before(*other),
    {
        if self.seen == other.seen {
            self.created_at >= other.created_at
        } else {
            !self.seen
        }
    }
}

/// Rebuilds an event's kind from its persisted columns. `event_type` is one of
/// the three kind codes; the column that the kind does not use is ignored.
pub fn from_sql(event_type: i16, role: DocumentVersionRole, state: DocumentVersionState) -> (kind:
    EventType)
    requires
        0 <= event_type <= 2,
    ensures
        kind == EventType::of_columns(event_type, role, state),
        kind.kind_code() == event_type,
{
    match event_type {
        0 => EventType::RoleAdded(role),
        1 => EventType::RoleRemoved(role),
        _ => EventType::StatusChange(state),
    }
}

/// Splits an event's kind into its persisted columns: kind, role and state.
pub fn to_sql(event_type: &EventType) -> (columns: (i16, Option<i16>, Option<i16>))
    ensures
        columns.0 == event_type.kind_code(),
        columns.1 == event_type.role_code(),
        columns.2 == event_type.state_code(),
{
    match event_type {
        EventType::RoleAdded(role) => (0, Some(i16::from(*role)), None),
        EventType::RoleRemoved(role) => (1, Some(i16::from(*role)), None),
        EventType::StatusChange(state) => (2, None, Some(i16::from(*state))),
    }
}

/// Persisting an event's kind and reading it back gives the same kind,
/// whatever stands in for the column that the kind leaves empty.
pub proof fn law_event_type_round_trip(
    event_type: EventType,
    role: DocumentVersionRole,
    state: DocumentVersionState,
)
    requires
        event_type.role_code() matches Some(code) ==> role.code() == code,
        event_type.state_code() matches Some(code) ==> state.code() == code,
    ensures
        0 <= event_type.kind_code() <= 2,
        EventType::of_columns(event_type.kind_code(), role, state) == event_type,
{
}

} // verus!
