//! The identity and role store: who is an administrator, and who holds which
//! role on which version. Roles on one version say nothing about another
//! version, nor about the document as a whole.

use vstd::prelude::*;

use crate::ident::Id;
use crate::models::role::{DocumentVersionRole, Role};
use crate::models::user::{PublicUser, PublicUserWithRoles, PublicUserWithRolesView};
use crate::repositories::users::{UsersRepository, UsersState};

verus! {

/// One role of one user on one version of one document.
#[derive(Debug, Clone, Copy, PartialEq, Eq, Structural)]
pub struct RoleGrant {
    pub user_id: Id,
    pub document_id: Id,
    pub version_id: Id,
    pub role: DocumentVersionRole,
}

/// One global role of one user.
#[derive(Debug, Clone, Copy, PartialEq, Eq, Structural)]
pub struct UserRole {
    pub user_id: Id,
    pub role: Role,
}

/// The users with a role on version `version_id` of `document_id` among
/// `grants`, each once, in the order of their first grant.
pub open spec fn holders_among(grants: Seq<RoleGrant>, document_id: Id, version_id: Id) -> Seq<Id>
    decreases grants.len(),
{
    if grants.len() == 0 {
        Seq::empty()
    } else {
        let earlier = holders_among(grants.drop_last(), document_id, version_id);
        let grant = grants.last();
        if grant.document_id == document_id && grant.version_id == version_id && !earlier.contains(
            grant.user_id,
        ) {
            earlier.push(grant.user_id)
        } else {
            earlier
        }
    }
}

/// The roles that `user_id` holds on version `version_id` of `document_id`
/// among `grants`, in the order in which they were granted.
pub open spec fn roles_among(
    grants: Seq<RoleGrant>,
    user_id: Id,
    document_id: Id,
    version_id: Id,
) -> Seq<DocumentVersionRole>
    decreases grants.len(),
{
    if grants.len() == 0 {
        Seq::empty()
    } else {
        let earlier = roles_among(grants.drop_last(), user_id, document_id, version_id);
        let grant = grants.last();
        if grant.user_id == user_id && grant.document_id == document_id && grant.version_id
            == version_id {
            earlier.push(grant.role)
        } else {
            earlier
        }
    }
}

/// The rows of the role store, oldest first.
pub struct PermissionState {
    pub user_roles: Seq<UserRole>,
    pub grants: Seq<RoleGrant>,
}

impl PermissionState {
    /// No grant is recorded twice.
    pub open spec fn wf(self) -> bool {
        self.grants.no_duplicates() && self.user_roles.no_duplicates()
    }

    /// `user_id` holds `role` on version `version_id` of `document_id`.
    pub open spec fn has_role(
        self,
        user_id: Id,
        document_id: Id,
        version_id: Id,
        role: DocumentVersionRole,
    ) -> bool {
        self.grants.contains(RoleGrant { user_id, document_id, version_id, role })
    }

    /// `user_id` holds at least one of `roles` on that version.
    pub open spec fn has_any_role_of(
        self,
        user_id: Id,
        document_id: Id,
        version_id: Id,
        roles: Seq<DocumentVersionRole>,
    ) -> bool {
        exists|k: int|
            0 <= k < roles.len() && self.has_role(user_id, document_id, version_id, #[trigger] roles[k])
    }

    /// `user_id` holds some role on that version.
    pub open spec fn has_any_role(self, user_id: Id, document_id: Id, version_id: Id) -> bool {
        exists|role: DocumentVersionRole| self.has_role(user_id, document_id, version_id, role)
    }

    /// `user_id` holds some role on some version of `document_id`.
    pub open spec fn has_role_in_document(self, user_id: Id, document_id: Id) -> bool {
        exists|k: int|
            0 <= k < self.grants.len() && (#[trigger] self.grants[k]).user_id == user_id
                && self.grants[k].document_id == document_id
    }

    /// `user_id` owns some version of `document_id`.
    pub open spec fn owns_in_document(self, user_id: Id, document_id: Id) -> bool {
        exists|k: int|
            0 <= k < self.grants.len() && (#[trigger] self.grants[k]).user_id == user_id
                && self.grants[k].document_id == document_id && self.grants[k].role
                == DocumentVersionRole::Owner
    }

    /// `user_id` is an administrator of the service.
    pub open spec fn is_admin(self, user_id: Id) -> bool {
        self.user_roles.contains(UserRole { user_id, role: Role::Admin })
    }

    /// The users with a role on that version, each once.
    pub open spec fn holders(self, document_id: Id, version_id: Id) -> Seq<Id> {
        holders_among(self.grants, document_id, version_id)
    }

    /// The roles of `user_id` on that version.
    pub open spec fn roles_of(self, user_id: Id, document_id: Id, version_id: Id) -> Seq<
        DocumentVersionRole,
    > {
        roles_among(self.grants, user_id, document_id, version_id)
    }

    /// The store with `grant` added.
    pub open spec fn with_grant(self, grant: RoleGrant) -> PermissionState {
        PermissionState { grants: self.grants.push(grant), ..self }
    }

    /// The store with `grant` taken out.
    pub open spec fn without_grant(self, grant: RoleGrant) -> PermissionState {
        PermissionState { grants: self.grants.remove(self.grants.index_of(grant)), ..self }
    }

    /// The store with one more global role.
    pub open spec fn with_user_role(self, user_role: UserRole) -> PermissionState {
        PermissionState { user_roles: self.user_roles.push(user_role), ..self }
    }

    /// The store once `grant` has been asked for: as it was where the grant is
    /// already held, else with the grant added.
    pub open spec fn granting(self, grant: RoleGrant) -> PermissionState {
        if self.grants.contains(grant) {
            self
        } else {
            self.with_grant(grant)
        }
    }

    /// The store once `grant` has been asked back: as it was where the grant
    /// is not held, else with the grant taken out.
    pub open spec fn revoking(self, grant: RoleGrant) -> PermissionState {
        if self.grants.contains(grant) {
            self.without_grant(grant)
        } else {
            self
        }
    }

    /// What granting `grant` does; `added` tells whether anything changed.
    pub open spec fn granted(self, after: PermissionState, grant: RoleGrant, added: bool) -> bool {
        after == self.granting(grant) && added == !self.grants.contains(grant)
    }

    /// What revoking `grant` does; `removed` tells whether anything changed.
    pub open spec fn revoked(self, after: PermissionState, grant: RoleGrant, removed: bool) -> bool {
        after == self.revoking(grant) && removed == self.grants.contains(grant)
    }

    /// The members of a version: its role holders that are registered users,
    /// each with the roles held.
    pub open spec fn members(self, users: UsersState, document_id: Id, version_id: Id) -> Seq<
        PublicUserWithRolesView,
    > {
        self.members_among(users, self.holders(document_id, version_id), document_id, version_id)
    }

    /// The members of a version among `holders`.
    pub open spec fn members_among(
        self,
        users: UsersState,
        holders: Seq<Id>,
        document_id: Id,
        version_id: Id,
    ) -> Seq<PublicUserWithRolesView>
        decreases holders.len(),
    {
        if holders.len() == 0 {
            Seq::empty()
        } else {
            let earlier = self.members_among(users, holders.drop_last(), document_id, version_id);
            let holder = holders.last();
            if users.has_user(holder) {
                earlier.push(self.member(users, holder, document_id, version_id))
            } else {
                earlier
            }
        }
    }

    /// The registered user `user_id` with the roles held on that version.
    pub open spec fn member(
        self,
        users: UsersState,
        user_id: Id,
        document_id: Id,
        version_id: Id,
    ) -> PublicUserWithRolesView {
        PublicUserWithRolesView {
            user: users.users[users.user_row(user_id)].public(),
            roles: self.roles_of(user_id, document_id, version_id),
        }
    }
}

/// A user is among the holders of a version exactly if some grant on that
/// version names the user, and no holder is listed twice.
pub proof fn law_holders_among(grants: Seq<RoleGrant>, document_id: Id, version_id: Id)
    ensures
        holders_among(grants, document_id, version_id).no_duplicates(),
        forall|user_id: Id| #[trigger]
            holders_among(grants, document_id, version_id).contains(user_id) <==> exists|k: int|
                0 <= k < grants.len() && (#[trigger] grants[k]).user_id == user_id
                    && grants[k].document_id == document_id && grants[k].version_id == version_id,
    decreases grants.len(),
{
    let holders = holders_among(grants, document_id, version_id);
    if grants.len() > 0 {
        let earlier = holders_among(grants.drop_last(), document_id, version_id);
        let grant = grants.last();
        law_holders_among(grants.drop_last(), document_id, version_id);
        assert forall|user_id: Id| #[trigger] holders.contains(user_id) implies exists|k: int|
            0 <= k < grants.len() && (#[trigger] grants[k]).user_id == user_id
                && grants[k].document_id == document_id && grants[k].version_id == version_id by {
            if earlier.contains(user_id) {
                let k = choose|k: int|
                    0 <= k < grants.drop_last().len() && (#[trigger] grants.drop_last()[k]).user_id
                        == user_id && grants.drop_last()[k].document_id == document_id
                        && grants.drop_last()[k].version_id == version_id;
                assert(grants[k] == grants.drop_last()[k]);
            } else {
                let at = choose|at: int| 0 <= at < holders.len() && holders[at] == user_id;
                assert(at == earlier.len());
                assert(grants[grants.len() - 1] == grant);
            }
        }
        assert forall|user_id: Id|
            (exists|k: int|
                0 <= k < grants.len() && (#[trigger] grants[k]).user_id == user_id
                    && grants[k].document_id == document_id && grants[k].version_id
                    == version_id) implies #[trigger] holders.contains(user_id) by {
            let k = choose|k: int|
                0 <= k < grants.len() && (#[trigger] grants[k]).user_id == user_id
                    && grants[k].document_id == document_id && grants[k].version_id == version_id;
            if k < grants.len() - 1 {
                assert(grants.drop_last()[k] == grants[k]);
                assert(earlier.contains(user_id));
                let at = choose|at: int| 0 <= at < earlier.len() && earlier[at] == user_id;
                assert(holders[at] == user_id);
            } else if earlier.contains(user_id) {
                let at = choose|at: int| 0 <= at < earlier.len() && earlier[at] == user_id;
                assert(holders[at] == user_id);
            } else {
                assert(holders[earlier.len() as int] == user_id);
            }
        }
    }
}

/// A role is among a user's roles on a version exactly if it is granted, and
/// where no grant is recorded twice no role is listed twice.
pub proof fn law_roles_among(
    grants: Seq<RoleGrant>,
    user_id: Id,
    document_id: Id,
    version_id: Id,
)
    ensures
        forall|role: DocumentVersionRole| #[trigger]
            roles_among(grants, user_id, document_id, version_id).contains(role)
                <==> grants.contains(RoleGrant { user_id, document_id, version_id, role }),
        grants.no_duplicates() ==> roles_among(
            grants,
            user_id,
            document_id,
            version_id,
        ).no_duplicates(),
    decreases grants.len(),
{
    let roles = roles_among(grants, user_id, document_id, version_id);
    if grants.len() > 0 {
        let earlier = roles_among(grants.drop_last(), user_id, document_id, version_id);
        let grant = grants.last();
        law_roles_among(grants.drop_last(), user_id, document_id, version_id);
        assert forall|role: DocumentVersionRole| #[trigger] roles.contains(role) implies grants.contains(
            RoleGrant { user_id, document_id, version_id, role },
        ) by {
            let wanted = RoleGrant { user_id, document_id, version_id, role };
            if earlier.contains(role) {
                let k = choose|k: int|
                    0 <= k < grants.drop_last().len() && grants.drop_last()[k] == wanted;
                assert(grants[k] == wanted);
            } else {
                let at = choose|at: int| 0 <= at < roles.len() && roles[at] == role;
                assert(at == earlier.len());
                assert(grants[grants.len() - 1] == wanted);
            }
        }
        assert forall|role: DocumentVersionRole|
            grants.contains(
                RoleGrant { user_id, document_id, version_id, role },
            ) implies #[trigger] roles.contains(role) by {
            let wanted = RoleGrant { user_id, document_id, version_id, role };
            let k = choose|k: int| 0 <= k < grants.len() && grants[k] == wanted;
            if k < grants.len() - 1 {
                assert(grants.drop_last()[k] == wanted);
                assert(earlier.contains(role));
                let at = choose|at: int| 0 <= at < earlier.len() && earlier[at] == role;
                assert(roles[at] == role);
            } else {
                assert(roles[earlier.len() as int] == role);
            }
        }
        if grants.no_duplicates() {
            assert(grants.drop_last().no_duplicates());
            if grant.user_id == user_id && grant.document_id == document_id && grant.version_id
                == version_id {
                if earlier.contains(grant.role) {
                    let k = choose|k: int|
                        0 <= k < grants.drop_last().len() && grants.drop_last()[k] == grant;
                    assert(grants[k] == grants[grants.len() - 1]);
                }
            }
        }
    }
}

/// The role store.
pub struct PermissionRepository {
    user_roles: Vec<UserRole>,
    grants: Vec<RoleGrant>,
}

impl View for PermissionRepository {
    type V = PermissionState;

    closed spec fn view(&self) -> PermissionState {
        PermissionState { user_roles: self.user_roles@, grants: self.grants@ }
    }
}

/// Whether `id` occurs in `ids`.
pub fn contains_id(ids: &Vec<Id>, id: Id) -> (found: bool)
    ensures
        found == ids@.contains(id),
{
    let mut i: usize = 0;
    while i < ids.len()
        invariant
            0 <= i <= ids.len(),
            forall|k: int| 0 <= k < i ==> ids@[k] != id,
        decreases ids.len() - i,
    {
        if ids[i] == id {
            return true;
        }
        i += 1;
    }
    false
}

impl PermissionRepository {
    /// A store without any role.
    pub fn new() -> (repository: PermissionRepository)
        ensures
            repository@.grants.len() == 0,
            repository@.user_roles.len() == 0,
            repository@.wf(),
    {
        PermissionRepository { user_roles: Vec::new(), grants: Vec::new() }
    }

    /// The row that records `grant`.
    fn find_grant(&self, grant: &RoleGrant) -> (row: Option<usize>)
        ensures
            match row {
                Some(i) => i < self@.grants.len() && self@.grants[i as int] == *grant,
                None => !self@.grants.contains(*grant),
            },
    {
        let mut i: usize = 0;
        while i < self.grants.len()
            invariant
                0 <= i <= self.grants.len(),
                forall|k: int| 0 <= k < i ==> self.grants@[k] != *grant,
            decreases self.grants.len() - i,
        {
            if self.grants[i] == *grant {
                return Some(i);
            }
            i += 1;
        }
        None
    }

    /// Whether `user_id` is an administrator of the service.
    pub fn is_admin(&self, user_id: Id) -> (admin: bool)
        ensures
            admin == self@.is_admin(user_id),
    {
        let wanted = UserRole { user_id, role: Role::Admin };
        let mut i: usize = 0;
        while i < self.user_roles.len()
            invariant
                0 <= i <= self.user_roles.len(),
                wanted == (UserRole { user_id, role: Role::Admin }),
                forall|k: int| 0 <= k < i ==> self.user_roles@[k] != wanted,
            decreases self.user_roles.len() - i,
        {
            if self.user_roles[i] == wanted {
                assert(self@.user_roles[i as int] == wanted);
                return true;
            }
            i += 1;
        }
        false
    }

    /// Gives `user_id` the global role `role`. Returns `false`, and changes
    /// nothing, where the user already has it.
    pub fn grant_role(&mut self, user_id: Id, role: Role) -> (added: bool)
        requires
            old(self)@.wf(),
        ensures
            final(self)@.wf(),
            added == !old(self)@.user_roles.contains(UserRole { user_id, role }),
            added ==> final(self)@ == old(self)@.with_user_role(UserRole { user_id, role }),
            !added ==> final(self)@ == old(self)@,
    {
        let wanted = UserRole { user_id, role };
        let mut i: usize = 0;
        while i < self.user_roles.len()
            invariant
                0 <= i <= self.user_roles.len(),
                *self == *old(self),
                old(self)@.wf(),
                wanted == (UserRole { user_id, role }),
                forall|k: int| 0 <= k < i ==> self.user_roles@[k] != wanted,
            decreases self.user_roles.len() - i,
        {
            if self.user_roles[i] == wanted {
                assert(self@.user_roles[i as int] == wanted);
                return false;
            }
            i += 1;
        }
        self.user_roles.push(wanted);
        true
    }

    /// Whether `user_id` holds `role` on version `version_id` of `document_id`.
    pub fn has_role(
        &self,
        user_id: Id,
        document_id: Id,
        version_id: Id,
        role: DocumentVersionRole,
    ) -> (held: bool)
        ensures
            held == self@.has_role(user_id, document_id, version_id, role),
    {
        self.find_grant(&RoleGrant { user_id, document_id, version_id, role }).is_some()
    }

    /// Whether `user_id` owns version `version_id` of `document_id`.
    pub fn is_owner(&self, user_id: Id, document_id: Id, version_id: Id) -> (owner: bool)
        ensures
            owner == self@.has_role(user_id, document_id, version_id, DocumentVersionRole::Owner),
    {
        self.has_role(user_id, document_id, version_id, DocumentVersionRole::Owner)
    }

    /// Whether `user_id` holds any role at all on that version.
    pub fn has_any_role(&self, user_id: Id, document_id: Id, version_id: Id) -> (held: bool)
        ensures
            held == self@.has_any_role(user_id, document_id, version_id),
    {
        let mut i: usize = 0;
        while i < self.grants.len()
            invariant
                0 <= i <= self.grants.len(),
                forall|k: int|
                    0 <= k < i ==> !((#[trigger] self.grants@[k]).user_id == user_id
                        && self.grants@[k].document_id == document_id && self.grants@[k].version_id
                        == version_id),
            decreases self.grants.len() - i,
        {
            let grant = &self.grants[i];
            if grant.user_id == user_id && grant.document_id == document_id && grant.version_id
                == version_id {
                assert(self@.has_role(user_id, document_id, version_id, grant.role));
                return true;
            }
            i += 1;
        }
        false
    }

    /// Whether `user_id` holds some role on some version of `document_id`.
    pub fn has_role_in_document(&self, user_id: Id, document_id: Id) -> (held: bool)
        ensures
            held == self@.has_role_in_document(user_id, document_id),
    {
        let mut i: usize = 0;
        while i < self.grants.len()
            invariant
                0 <= i <= self.grants.len(),
                forall|k: int|
                    0 <= k < i ==> !((#[trigger] self.grants@[k]).user_id == user_id
                        && self.grants@[k].document_id == document_id),
            decreases self.grants.len() - i,
        {
            if self.grants[i].user_id == user_id && self.grants[i].document_id == document_id {
                return true;
            }
            i += 1;
        }
        false
    }

    /// Whether `user_id` owns some version of `document_id`.
    pub fn owns_in_document(&self, user_id: Id, document_id: Id) -> (owns: bool)
        ensures
            owns == self@.owns_in_document(user_id, document_id),
    {
        let mut i: usize = 0;
        while i < self.grants.len()
            invariant
                0 <= i <= self.grants.len(),
                forall|k: int|
                    0 <= k < i ==> !((#[trigger] self.grants@[k]).user_id == user_id
                        && self.grants@[k].document_id == document_id && self.grants@[k].role
                        == DocumentVersionRole::Owner),
            decreases self.grants.len() - i,
        {
            if self.grants[i].user_id == user_id && self.grants[i].document_id == document_id {
                match self.grants[i].role {
                    DocumentVersionRole::Owner => {
                        return true;
                    },
                    _ => {},
                }
            }
            i += 1;
        }
        false
    }

    /// Whether `user_id` holds at least one of `roles` on that version.
    pub fn does_user_have_document_version_roles(
        &self,
        user_id: Id,
        document_id: Id,
        version_id: Id,
        roles: &[DocumentVersionRole],
    ) -> (held: bool)
        ensures
            held == self@.has_any_role_of(user_id, document_id, version_id, roles@),
    {
        let mut k: usize = 0;
        while k < roles.len()
            invariant
                0 <= k <= roles.len(),
                forall|j: int|
                    0 <= j < k ==> !self@.has_role(
                        user_id,
                        document_id,
                        version_id,
                        #[trigger] roles@[j],
                    ),
            decreases roles.len() - k,
        {
            if self.has_role(user_id, document_id, version_id, roles[k]) {
                return true;
            }
            k += 1;
        }
        false
    }

    /// Grants `role` to `user_id` on that version. Returns `false`, and changes
    /// nothing, where the user already holds it.
    pub fn grant_document_version_role(
        &mut self,
        user_id: Id,
        document_id: Id,
        version_id: Id,
        role: DocumentVersionRole,
    ) -> (added: bool)
        requires
            old(self)@.wf(),
        ensures
            final(self)@.wf(),
            old(self)@.granted(
                final(self)@,
                RoleGrant { user_id, document_id, version_id, role },
                added,
            ),
    {
        let grant = RoleGrant { user_id, document_id, version_id, role };
        match self.find_grant(&grant) {
            Some(_) => false,
            None => {
                self.grants.push(grant);
                true
            },
        }
    }

    /// Takes `role` from `user_id` on that version. Returns `false`, and
    /// changes nothing, where the user does not hold it.
    pub fn revoke_document_version_role(
        &mut self,
        user_id: Id,
        document_id: Id,
        version_id: Id,
        role: DocumentVersionRole,
    ) -> (removed: bool)
        requires
            old(self)@.wf(),
        ensures
            final(self)@.wf(),
            old(self)@.revoked(
                final(self)@,
                RoleGrant { user_id, document_id, version_id, role },
                removed,
            ),
    {
        let grant = RoleGrant { user_id, document_id, version_id, role };
        match self.find_grant(&grant) {
            Some(i) => {
                assert(self.grants@.index_of(grant) == i);
                self.grants.remove(i);
                assert(self.grants@.no_duplicates()) by {
                    let before = old(self).grants@;
                    assert forall|a: int, b: int|
                        0 <= a < self.grants@.len() && 0 <= b < self.grants@.len() && a
                            != b implies self.grants@[a] != self.grants@[b] by {
                        let from_a = if a < i { a } else { a + 1 };
                        let from_b = if b < i { b } else { b + 1 };
                        assert(self.grants@[a] == before[from_a]);
                        assert(self.grants@[b] == before[from_b]);
                    }
                }
                true
            },
            None => false,
        }
    }

    /// The users with a role on that version, each once.
    pub fn role_holders(&self, document_id: Id, version_id: Id) -> (holders: Vec<Id>)
        ensures
            holders@ == self@.holders(document_id, version_id),
    {
        let mut holders: Vec<Id> = Vec::new();
        let mut i: usize = 0;
        while i < self.grants.len()
            invariant
                0 <= i <= self.grants.len(),
                holders@ == holders_among(self.grants@.take(i as int), document_id, version_id),
            decreases self.grants.len() - i,
        {
            let grant = &self.grants[i];
            assert(self.grants@.take(i + 1).drop_last() == self.grants@.take(i as int));
            if grant.document_id == document_id && grant.version_id == version_id && !contains_id(
                &holders,
                grant.user_id,
            ) {
                holders.push(grant.user_id);
            }
            i += 1;
        }
        assert(self.grants@.take(i as int) == self.grants@);
        holders
    }

    /// The roles that `user_id` holds on that version.
    pub fn roles_of(&self, user_id: Id, document_id: Id, version_id: Id) -> (roles: Vec<
        DocumentVersionRole,
    >)
        ensures
            roles@ == self@.roles_of(user_id, document_id, version_id),
    {
        let mut roles: Vec<DocumentVersionRole> = Vec::new();
        let mut i: usize = 0;
        while i < self.grants.len()
            invariant
                0 <= i <= self.grants.len(),
                roles@ == roles_among(
                    self.grants@.take(i as int),
                    user_id,
                    document_id,
                    version_id,
                ),
            decreases self.grants.len() - i,
        {
            let grant = &self.grants[i];
            assert(self.grants@.take(i + 1).drop_last() == self.grants@.take(i as int));
            if grant.user_id == user_id && grant.document_id == document_id && grant.version_id
                == version_id {
                roles.push(grant.role);
            }
            i += 1;
        }
        assert(self.grants@.take(i as int) == self.grants@);
        roles
    }

    /// The members of a version: its role holders that are registered users,
    /// each with the roles held.
    pub fn get_document_version_users(
        &self,
        users: &UsersRepository,
        document_id: Id,
        version_id: Id,
    ) -> (members: Vec<PublicUserWithRoles>)
        requires
            users@.wf(),
        ensures
            members@.map_values(|member: PublicUserWithRoles| member@) == self@.members(
                users@,
                document_id,
                version_id,
            ),
    {
        let holders = self.role_holders(document_id, version_id);
        let mut members: Vec<PublicUserWithRoles> = Vec::new();
        let mut i: usize = 0;
        while i < holders.len()
            invariant
                0 <= i <= holders.len(),
                users@.wf(),
                members@.map_values(|member: PublicUserWithRoles| member@) == self@.members_among(
                    users@,
                    holders@.take(i as int),
                    document_id,
                    version_id,
                ),
            decreases holders.len() - i,
        {
            let holder = holders[i];
            assert(holders@.take(i + 1).drop_last() == holders@.take(i as int));
            let ghost before = members@.map_values(|member: PublicUserWithRoles| member@);
            match users.find_user(holder) {
                Some(row) => {
                    let member = PublicUserWithRoles {
                        user: users.public_user(row),
                        roles: self.roles_of(holder, document_id, version_id),
                    };
                    assert(users@.is_user(users@.user_row(holder), holder));
                    assert(member@ == self@.member(users@, holder, document_id, version_id));
                    members.push(member);
                    assert(members@.map_values(|member: PublicUserWithRoles| member@)
                        == before.push(member@));
                },
                None => {},
            }
            i += 1;
        }
        assert(holders@.take(i as int) == holders@);
        members
    }

    /// The registered user `user_id` with the roles held on that version;
    /// `NotFound` where the user is not registered or holds no role there.
    pub fn get_document_version_user(
        &self,
        users: &UsersRepository,
        user_id: Id,
        document_id: Id,
        version_id: Id,
    ) -> (member: Option<PublicUserWithRoles>)
        requires
            users@.wf(),
        ensures
            match member {
                Some(member) => users@.has_user(user_id) && self@.has_any_role(
                    user_id,
                    document_id,
                    version_id,
                ) && member@ == self@.member(users@, user_id, document_id, version_id),
                None => !(users@.has_user(user_id) && self@.has_any_role(
                    user_id,
                    document_id,
                    version_id,
                )),
            },
    {
        if !self.has_any_role(user_id, document_id, version_id) {
            return None;
        }
        match users.find_user(user_id) {
            Some(row) => {
                assert(users@.is_user(users@.user_row(user_id), user_id));
                Some(
                    PublicUserWithRoles {
                        user: users.public_user(row),
                        roles: self.roles_of(user_id, document_id, version_id),
                    },
                )
            },
            None => None,
        }
    }

    /// Every registered user, as others may see them, oldest first.
    pub fn get_all_users(&self, users: &UsersRepository) -> (all: Vec<PublicUser>)
        ensures
            all@.map_values(|user: PublicUser| user@) == users@.users.map_values(
                |user: crate::models::user::UserView| user.public(),
            ),
    {
        let mut all: Vec<PublicUser> = Vec::new();
        let mut i: usize = 0;
        while i < users.len()
            invariant
                0 <= i <= users@.users.len(),
                all@.len() == i,
                forall|k: int| 0 <= k < i ==> (#[trigger] all@[k])@ == users@.users[k].public(),
            decreases users@.users.len() - i,
        {
            all.push(users.public_user(i));
            i += 1;
        }
        all
    }
}

} // verus!
