//! The lifecycle of a document version: its states, the transitions between
//! them, and the roles that may request each state.

use vstd::prelude::*;
use vstd::std_specs::convert::{FromSpecImpl, TryFromSpecImpl};

use crate::models::role::{DocumentVersionRole, UnknownCode};

verus! {

/// Where a version stands between drafting and publication.
#[derive(Debug, Clone, Copy, PartialEq, Eq, Structural)]
pub enum DocumentVersionState {
    InProgress,
    ReadyForReview,
    Reviewed,
    Published,
}

impl DocumentVersionState {
    /// The number under which the state is persisted.
    pub open spec fn code(self) -> i16 {
        match self {
            DocumentVersionState::InProgress => 0,
            DocumentVersionState::ReadyForReview => 1,
            DocumentVersionState::Reviewed => 2,
            DocumentVersionState::Published => 3,
        }
    }

    /// The state persisted under `code`, if there is one.
    pub open spec fn of_code(code: i16) -> Option<DocumentVersionState> {
        if code == 0 {
            Some(DocumentVersionState::InProgress)
        } else if code == 1 {
            Some(DocumentVersionState::ReadyForReview)
        } else if code == 2 {
            Some(DocumentVersionState::Reviewed)
        } else if code == 3 {
            Some(DocumentVersionState::Published)
        } else {
            None
        }
    }

    /// The transition table: a version in state `self` may enter `target`.
    ///
    /// Progress is linear, from `InProgress` over `ReadyForReview` and
    /// `Reviewed` to `Published`; a version under or after review may be
    /// reopened as `InProgress`; nothing leaves `Published`.
    pub open spec fn may_enter(self, target: DocumentVersionState) -> bool {
        match target {
            DocumentVersionState::InProgress => self == DocumentVersionState::ReadyForReview
                || self == DocumentVersionState::Reviewed,
            DocumentVersionState::ReadyForReview => self == DocumentVersionState::InProgress,
            DocumentVersionState::Reviewed => self == DocumentVersionState::ReadyForReview,
            DocumentVersionState::Published => self == DocumentVersionState::Reviewed,
        }
    }

    /// The role gate: `role` entitles its holder to request `self`.
    pub open spec fn open_to(self, role: DocumentVersionRole) -> bool {
        match self {
            DocumentVersionState::InProgress | DocumentVersionState::ReadyForReview => role
                == DocumentVersionRole::Owner || role == DocumentVersionRole::Editor,
            DocumentVersionState::Reviewed => role == DocumentVersionRole::Reviewer,
            DocumentVersionState::Published => role == DocumentVersionRole::Owner,
        }
    }

    /// Decides whether a version in state `self` may enter `target`.
    pub fn can_enter(self, target: DocumentVersionState) -> (allowed: bool)
        ensures
            allowed == self.may_enter(target),
    {
        match target {
            DocumentVersionState::InProgress => match self {
                DocumentVersionState::ReadyForReview | DocumentVersionState::Reviewed => true,
                _ => false,
            },
            DocumentVersionState::ReadyForReview => match self {
                DocumentVersionState::InProgress => true,
                _ => false,
            },
            DocumentVersionState::Reviewed => match self {
                DocumentVersionState::ReadyForReview => true,
                _ => false,
            },
            DocumentVersionState::Published => match self {
                DocumentVersionState::Reviewed => true,
                _ => false,
            },
        }
    }

    /// The states from which `self` may be entered, in lifecycle order.
    pub fn allowed_sources(self) -> (sources: Vec<DocumentVersionState>)
        ensures
            forall|from: DocumentVersionState| sources@.contains(from) <==> from.may_enter(self),
            sources@.no_duplicates(),
    {
        let sources = match self {
            DocumentVersionState::InProgress => vec![
                DocumentVersionState::ReadyForReview,
                DocumentVersionState::Reviewed,
            ],
            DocumentVersionState::ReadyForReview => vec![DocumentVersionState::InProgress],
            DocumentVersionState::Reviewed => vec![DocumentVersionState::ReadyForReview],
            DocumentVersionState::Published => vec![DocumentVersionState::Reviewed],
        };
        assert forall|from: DocumentVersionState| from.may_enter(self) implies sources@.contains(
            from,
        ) by {
            if from == sources@[0] {
            } else {
                assert(from == sources@[1]);
            }
        }
        sources
    }

    /// The roles of which the acting user must hold at least one to request `self`.
    pub fn required_roles(self) -> (roles: Vec<DocumentVersionRole>)
        ensures
            forall|role: DocumentVersionRole| roles@.contains(role) <==> self.open_to(role),
            roles@.no_duplicates(),
    {
        let roles = match self {
            DocumentVersionState::InProgress | DocumentVersionState::ReadyForReview => vec![
                DocumentVersionRole::Owner,
                DocumentVersionRole::Editor,
            ],
            DocumentVersionState::Reviewed => vec![DocumentVersionRole::Reviewer],
            DocumentVersionState::Published => vec![DocumentVersionRole::Owner],
        };
        assert forall|role: DocumentVersionRole| self.open_to(role) implies roles@.contains(
            role,
        ) by {
            if role == roles@[0] {
            } else {
                assert(role == roles@[1]);
            }
        }
        roles
    }
}

/// Reads a persisted state back. Codes outside `0..=3` name no state.
impl TryFrom<i16> for DocumentVersionState {
    type Error = UnknownCode;

    fn try_from(value: i16) -> (state: Result<DocumentVersionState, UnknownCode>) {
        match value {
            0 => Ok(DocumentVersionState::InProgress),
            1 => Ok(DocumentVersionState::ReadyForReview),
            2 => Ok(DocumentVersionState::Reviewed),
            3 => Ok(DocumentVersionState::Published),
            _ => Err(UnknownCode { code: value }),
        }
    }
}

impl TryFromSpecImpl<i16> for DocumentVersionState {
    open spec fn obeys_try_from_spec() -> bool {
        true
    }

    open spec fn try_from_spec(value: i16) -> Result<DocumentVersionState, UnknownCode> {
        match DocumentVersionState::of_code(value) {
            Some(state) => Ok(state),
            None => Err(UnknownCode { code: value }),
        }
    }
}

impl From<DocumentVersionState> for i16 {
    fn from(value: DocumentVersionState) -> (code: i16) {
        match value {
            DocumentVersionState::InProgress => 0,
            DocumentVersionState::ReadyForReview => 1,
            DocumentVersionState::Reviewed => 2,
            DocumentVersionState::Published => 3,
        }
    }
}

impl FromSpecImpl<DocumentVersionState> for i16 {
    open spec fn obeys_from_spec() -> bool {
        true
    }

    open spec fn from_spec(value: DocumentVersionState) -> i16 {
        value.code()
    }
}

/// Decoding undoes encoding.
pub proof fn law_state_code_round_trip(state: DocumentVersionState)
    ensures
        DocumentVersionState::of_code(state.code()) == Some(state),
{
}

/// Nothing leaves `Published`, and no state leads to itself.
pub proof fn law_published_is_final(target: DocumentVersionState)
    ensures
        !DocumentVersionState::Published.may_enter(target),
        !target.may_enter(target),
{
}

} // verus!
