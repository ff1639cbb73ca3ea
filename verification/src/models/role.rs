//! Global roles and the roles a user can hold on one document version.

use vstd::prelude::*;
use vstd::std_specs::convert::{FromSpecImpl, TryFromSpecImpl};

verus! {

/// A role that applies to the whole service rather than to one version.
#[derive(Debug, Clone, Copy, PartialEq, Eq, Structural)]
pub enum Role {
    Admin,
}

impl Role {
    /// The number under which the role is persisted.
    pub open spec fn code(self) -> i16 {
        0
    }
}

impl From<Role> for i16 {
    fn from(value: Role) -> (code: i16) {
        0
    }
}

impl FromSpecImpl<Role> for i16 {
    open spec fn obeys_from_spec() -> bool {
        true
    }

    open spec fn from_spec(value: Role) -> i16 {
        value.code()
    }
}

/// A capability granted to one user on exactly one version of one document.
#[derive(Debug, Clone, Copy, PartialEq, Eq, Structural)]
pub enum DocumentVersionRole {
    Owner,
    Viewer,
    Editor,
    Reviewer,
    Publisher,
}

impl DocumentVersionRole {
    /// The number under which the role is persisted.
    pub open spec fn code(self) -> i16 {
        match self {
            DocumentVersionRole::Owner => 0,
            DocumentVersionRole::Viewer => 1,
            DocumentVersionRole::Editor => 2,
            DocumentVersionRole::Reviewer => 3,
            DocumentVersionRole::Publisher => 4,
        }
    }

    /// The role persisted under `code`, if there is one.
    pub open spec fn of_code(code: i16) -> Option<DocumentVersionRole> {
        if code == 0 {
            Some(DocumentVersionRole::Owner)
        } else if code == 1 {
            Some(DocumentVersionRole::Viewer)
        } else if code == 2 {
            Some(DocumentVersionRole::Editor)
        } else if code == 3 {
            Some(DocumentVersionRole::Reviewer)
        } else if code == 4 {
            Some(DocumentVersionRole::Publisher)
        } else {
            None
        }
    }

}

/// The error of reading back a number under which nothing is persisted.
#[derive(Debug, Clone, Copy, PartialEq, Eq, Structural)]
pub struct UnknownCode {
    pub code: i16,
}

/// Reads a persisted role back. Codes outside `0..=4` name no role.
impl TryFrom<i16> for DocumentVersionRole {
    type Error = UnknownCode;

    fn try_from(value: i16) -> (role: Result<DocumentVersionRole, UnknownCode>) {
        match value {
            0 => Ok(DocumentVersionRole::Owner),
            1 => Ok(DocumentVersionRole::Viewer),
            2 => Ok(DocumentVersionRole::Editor),
            3 => Ok(DocumentVersionRole::Reviewer),
            4 => Ok(DocumentVersionRole::Publisher),
            _ => Err(UnknownCode { code: value }),
        }
    }
}

impl TryFromSpecImpl<i16> for DocumentVersionRole {
    open spec fn obeys_try_from_spec() -> bool {
        true
    }

    open spec fn try_from_spec(value: i16) -> Result<DocumentVersionRole, UnknownCode> {
        match DocumentVersionRole::of_code(value) {
            Some(role) => Ok(role),
            None => Err(UnknownCode { code: value }),
        }
    }
}

impl From<DocumentVersionRole> for i16 {
    fn from(value: DocumentVersionRole) -> (code: i16) {
        match value {
            DocumentVersionRole::Owner => 0,
            DocumentVersionRole::Viewer => 1,
            DocumentVersionRole::Editor => 2,
            DocumentVersionRole::Reviewer => 3,
            DocumentVersionRole::Publisher => 4,
        }
    }
}

impl FromSpecImpl<DocumentVersionRole> for i16 {
    open spec fn obeys_from_spec() -> bool {
        true
    }

    open spec fn from_spec(value: DocumentVersionRole) -> i16 {
        value.code()
    }
}

/// Decoding undoes encoding.
pub proof fn law_role_code_round_trip(role: DocumentVersionRole)
    ensures
        DocumentVersionRole::of_code(role.code()) == Some(role),
{
}

} // verus!
