//! The registered users.

use vstd::prelude::*;

use vstd::utf8::encode_utf8;

use crate::digest::{hex_digest, hex_lower, sha256};
use crate::ident::{big_endian, fresh_id, id_bytes, Id};
use crate::models::user::{PublicUser, User, UserView};
use crate::repositories::RepoError;

verus! {

/// What is hashed for a password: the sixteen bytes of the user's identifier,
/// a `|`, the password in UTF-8, a `|`, and the sixteen bytes of the salt.
pub open spec fn salted(user_id: Id, password: Seq<char>, salt: Id) -> Seq<u8> {
    big_endian(user_id as nat, 16) + seq![124u8] + encode_utf8(password) + seq![124u8]
        + big_endian(salt as nat, 16)
}

/// The hash kept for a password: the SHA-256 digest of the salted password,
/// in lowercase hexadecimal.
pub open spec fn password_hash(user_id: Id, password: Seq<char>, salt: Id) -> Seq<char> {
    hex_lower(sha256(salted(user_id, password, salt)))
}

/// Appends `bytes` to `buffer`.
fn append_bytes(buffer: &mut Vec<u8>, bytes: &[u8])
    ensures
        final(buffer)@ == old(buffer)@ + bytes@,
{
    let mut i: usize = 0;
    while i < bytes.len()
        invariant
            0 <= i <= bytes.len(),
            buffer@ == old(buffer)@ + bytes@.take(i as int),
        decreases bytes.len() - i,
    {
        buffer.push(bytes[i]);
        assert(bytes@.take(i + 1) == bytes@.take(i as int).push(bytes@[i as int]));
        i += 1;
    }
    assert(bytes@.take(i as int) == bytes@);
}

/// Hashes `password` for the user `user_id` with the salt `salt`.
pub fn hash_password(user_id: &Id, password: &str, salt: &Id) -> (hash: String)
    ensures
        hash@ == password_hash(*user_id, password@, *salt),
        hash@.len() == 64,
{
    let mut input = id_bytes(*user_id);
    input.push(124u8);
    append_bytes(&mut input, password.as_bytes());
    input.push(124u8);
    let salt_bytes = id_bytes(*salt);
    append_bytes(&mut input, salt_bytes.as_slice());
    assert(input@ == salted(*user_id, password@, *salt));
    hex_digest(input.as_slice())
}

/// The rows of the user store, oldest first.
pub struct UsersState {
    pub users: Seq<UserView>,
}

impl UsersState {
    /// Row `i` belongs to the user `user_id`.
    pub open spec fn is_user(self, i: int, user_id: Id) -> bool {
        0 <= i < self.users.len() && self.users[i].user_id == user_id
    }

    /// Row `i` belongs to the user named `username`.
    pub open spec fn is_named(self, i: int, username: Seq<char>) -> bool {
        0 <= i < self.users.len() && self.users[i].username == username
    }

    /// Some user has the identifier `user_id`.
    pub open spec fn has_user(self, user_id: Id) -> bool {
        exists|i: int| self.is_user(i, user_id)
    }

    /// Some user is named `username`.
    pub open spec fn has_name(self, username: Seq<char>) -> bool {
        exists|i: int| self.is_named(i, username)
    }

    /// The row of the user `user_id`, where there is one.
    pub open spec fn user_row(self, user_id: Id) -> int {
        choose|i: int| self.is_user(i, user_id)
    }

    /// The row of the user named `username`, where there is one.
    pub open spec fn named_row(self, username: Seq<char>) -> int {
        choose|i: int| self.is_named(i, username)
    }

    /// No two users share an identifier or a name.
    pub open spec fn wf(self) -> bool {
        &&& forall|i: int, j: int|
            #![trigger self.users[i], self.users[j]]
            0 <= i < self.users.len() && 0 <= j < self.users.len() && self.users[i].user_id
                == self.users[j].user_id ==> i == j
        &&& forall|i: int, j: int|
            #![trigger self.users[i], self.users[j]]
            0 <= i < self.users.len() && 0 <= j < self.users.len() && self.users[i].username
                == self.users[j].username ==> i == j
    }

    /// The store with one more user.
    pub open spec fn with_user(self, user: UserView) -> UsersState {
        UsersState { users: self.users.push(user) }
    }

    /// What registering a user does: the user is recorded with the hash of
    /// the password, unless the name is taken, which is a `UniqueConflict`, or
    /// the identifier is in use, which is a failure of the store; neither
    /// changes anything.
    pub open spec fn registers(
        self,
        after: UsersState,
        result: Result<User, RepoError>,
        user_id: Id,
        salt: Id,
        username: Seq<char>,
        password: Seq<char>,
    ) -> bool {
        if self.has_name(username) {
            result == Err::<User, RepoError>(RepoError::UniqueConflict) && after == self
        } else if self.has_user(user_id) {
            result == Err::<User, RepoError>(RepoError::StoreFailure) && after == self
        } else {
            let user = UserView {
                user_id,
                salt,
                username,
                password_hash: password_hash(user_id, password, salt),
            };
            &&& after == self.with_user(user)
            &&& result matches Ok(created)
            &&& created@ == user
        }
    }

    /// What checking a password gives: `NotFound` where nobody has the name;
    /// the user where the password hashes to what is kept; else nothing.
    pub open spec fn verifies(
        self,
        result: Result<Option<User>, RepoError>,
        username: Seq<char>,
        password: Seq<char>,
    ) -> bool {
        if !self.has_name(username) {
            result == Err::<Option<User>, RepoError>(RepoError::NotFound)
        } else {
            let user = self.users[self.named_row(username)];
            if password_hash(user.user_id, password, user.salt) == user.password_hash {
                result matches Ok(Some(found)) && found@ == user
            } else {
                result == Ok::<Option<User>, RepoError>(None)
            }
        }
    }
}

/// The user store.
pub struct UsersRepository {
    users: Vec<User>,
}

impl View for UsersRepository {
    type V = UsersState;

    closed spec fn view(&self) -> UsersState {
        UsersState { users: self.users@.map_values(|user: User| user@) }
    }
}

impl UsersRepository {
    /// A store without users.
    pub fn new() -> (repository: UsersRepository)
        ensures
            repository@.users.len() == 0,
            repository@.wf(),
    {
        UsersRepository { users: Vec::new() }
    }

    /// How many users there are.
    pub fn len(&self) -> (count: usize)
        ensures
            count == self@.users.len(),
    {
        self.users.len()
    }

    /// The row of the user `user_id`.
    pub fn find_user(&self, user_id: Id) -> (row: Option<usize>)
        ensures
            match row {
                Some(i) => self@.is_user(i as int, user_id),
                None => !self@.has_user(user_id),
            },
    {
        let mut i: usize = 0;
        while i < self.users.len()
            invariant
                0 <= i <= self.users.len(),
                forall|k: int| 0 <= k < i ==> !self@.is_user(k, user_id),
            decreases self.users.len() - i,
        {
            if self.users[i].user_id == user_id {
                return Some(i);
            }
            i += 1;
        }
        None
    }

    /// The row of the user named `username`.
    pub fn find_name(&self, username: &str) -> (row: Option<usize>)
        ensures
            match row {
                Some(i) => self@.is_named(i as int, username@),
                None => !self@.has_name(username@),
            },
    {
        let wanted = username.to_owned();
        let mut i: usize = 0;
        while i < self.users.len()
            invariant
                0 <= i <= self.users.len(),
                wanted@ == username@,
                forall|k: int| 0 <= k < i ==> !self@.is_named(k, username@),
            decreases self.users.len() - i,
        {
            if self.users[i].username == wanted {
                return Some(i);
            }
            i += 1;
        }
        None
    }

    /// What others may see of the user in row `i`.
    pub fn public_user(&self, i: usize) -> (user: PublicUser)
        requires
            i < self@.users.len(),
        ensures
            user@ == self@.users[i as int].public(),
    {
        self.users[i].to_public()
    }

    /// Registers the user `username` under the identifier `user_id`, keeping
    /// the password as a hash salted with `salt`.
    pub fn create_user_with(
        &mut self,
        user_id: Id,
        salt: Id,
        username: String,
        password: String,
    ) -> (result: Result<User, RepoError>)
        requires
            old(self)@.wf(),
        ensures
            final(self)@.wf(),
            old(self)@.registers(final(self)@, result, user_id, salt, username@, password@),
    {
        if self.find_name(username.as_str()).is_some() {
            return Err(RepoError::UniqueConflict);
        }
        if self.find_user(user_id).is_some() {
            return Err(RepoError::StoreFailure);
        }
        let password_hash = hash_password(&user_id, password.as_str(), &salt);
        let user = User { user_id, salt, username, password_hash };
        let created = user.duplicate();
        self.users.push(user);
        assert(self@.users == old(self)@.users.push(user@));
        assert forall|i: int, j: int|
            #![trigger self@.users[i], self@.users[j]]
            0 <= i < self@.users.len() && 0 <= j < self@.users.len() && (self@.users[i].user_id
                == self@.users[j].user_id || self@.users[i].username
                == self@.users[j].username) implies i == j by {
            if i < old(self)@.users.len() {
                assert(!old(self)@.is_user(i, user_id));
                assert(!old(self)@.is_named(i, username@));
            }
            if j < old(self)@.users.len() {
                assert(!old(self)@.is_user(j, user_id));
                assert(!old(self)@.is_named(j, username@));
            }
        }
        Ok(created)
    }

    /// Registers the user `username` under a fresh identifier, keeping the
    /// password as a hash with a fresh salt.
    pub fn create_user(&mut self, username: String, password: String) -> (result: Result<
        User,
        RepoError,
    >)
        requires
            old(self)@.wf(),
        ensures
            final(self)@.wf(),
            exists|user_id: Id, salt: Id| #[trigger]
                old(self)@.registers(final(self)@, result, user_id, salt, username@, password@),
    {
        let user_id = fresh_id();
        let salt = fresh_id();
        self.create_user_with(user_id, salt, username, password)
    }

    /// The user named `username`, if `password` is the user's password.
    pub fn verify(&self, username: &str, password: &str) -> (result: Result<Option<User>, RepoError>)
        requires
            self@.wf(),
        ensures
            self@.verifies(result, username@, password@),
    {
        let row = match self.find_name(username) {
            Some(row) => row,
            None => {
                return Err(RepoError::NotFound);
            },
        };
        proof {
            let chosen = self@.named_row(username@);
            assert(self@.is_named(chosen, username@));
            assert(self@.users[chosen].username == self@.users[row as int].username);
        }
        let user = &self.users[row];
        let password_hash = hash_password(&user.user_id, password, &user.salt);
        if password_hash == user.password_hash {
            Ok(Some(user.duplicate()))
        } else {
            Ok(None)
        }
    }
}

} // verus!
