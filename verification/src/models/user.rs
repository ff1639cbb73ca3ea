//! Users, as stored and as shown to other users.

use vstd::prelude::*;

use crate::ident::Id;
use crate::models::role::DocumentVersionRole;

verus! {

/// What every user may see of another.
#[derive(Debug)]
pub struct PublicUser {
    pub user_id: Id,
    pub username: String,
}

/// A user together with the roles held on one version.
#[derive(Debug)]
pub struct PublicUserWithRoles {
    pub user: PublicUser,
    pub roles: Vec<DocumentVersionRole>,
}

/// A user as stored: the password is kept as a salted hash.
#[derive(Debug)]
pub struct User {
    pub user_id: Id,
    pub salt: Id,
    pub username: String,
    pub password_hash: String,
}

/// What a `PublicUser` holds, as plain mathematical values.
pub struct PublicUserView {
    pub user_id: Id,
    pub username: Seq<char>,
}

/// What a `PublicUserWithRoles` holds, as plain mathematical values.
pub struct PublicUserWithRolesView {
    pub user: PublicUserView,
    pub roles: Seq<DocumentVersionRole>,
}

/// What a `User` holds, as plain mathematical values.
pub struct UserView {
    pub user_id: Id,
    pub salt: Id,
    pub username: Seq<char>,
    pub password_hash: Seq<char>,
}

impl View for PublicUser {
    type V = PublicUserView;

    open spec fn view(&self) -> PublicUserView {
        PublicUserView { user_id: self.user_id, username: self.username@ }
    }
}

impl View for PublicUserWithRoles {
    type V = PublicUserWithRolesView;

    open spec fn view(&self) -> PublicUserWithRolesView {
        PublicUserWithRolesView { user: self.user@, roles: self.roles@ }
    }
}

impl View for User {
    type V = UserView;

    open spec fn view(&self) -> UserView {
        UserView {
            user_id: self.user_id,
            salt: self.salt,
            username: self.username@,
            password_hash: self.password_hash@,
        }
    }
}

impl UserView {
    /// The part of a user that others may see.
    pub open spec fn public(self) -> PublicUserView {
        PublicUserView { user_id: self.user_id, username: self.username }
    }
}

impl User {
    /// The part of the user that others may see.
    pub fn to_public(&self) -> (public: PublicUser)
        ensures
            public@ == self@.public(),
    {
        PublicUser { user_id: self.user_id, username: self.username.clone() }
    }

    /// A copy of the user.
    pub fn duplicate(&self) -> (copy: User)
        ensures
            copy@ == self@,
    {
        User {
            user_id: self.user_id,
            salt: self.salt,
            username: self.username.clone(),
            password_hash: self.password_hash.clone(),
        }
    }
}

} // verus!
