//! Connection settings of the table source and of the backends, and the
//! rules by which the source-code host grants group membership.
use vstd::prelude::*;

use crate::reconcile::ids_view;

verus! {

/// Where and as whom to read the table source.
#[derive(Debug, Clone)]
pub struct Nextcloud {
    pub username: String,
    pub password: String,
    pub url: String,
}

/// Settings of the identity and access manager.
#[derive(Debug, Clone)]
pub struct KeycloakConfig {
    pub url: String,
    pub realm: String,
    pub username: String,
    pub password: String,
    pub client_id: String,
}

/// Settings of the source-code host: the group to manage, and the roles
/// whose holders become its owners or maintainers.
#[derive(Debug, Clone)]
pub struct GitLabConfig {
    pub token: String,
    pub url: String,
    pub group_id: u64,
    pub owner_role: String,
    pub maintainer_role: String,
}

/// A user of the source-code host.
#[derive(Debug, Clone)]
pub struct GitlabUser {
    pub id: u64,
    pub username: String,
}

/// The access a group member is given.
#[derive(Debug, Clone, Copy, PartialEq, Eq, Structural)]
pub enum AccessLevel {
    Maintainer,
    Owner,
}

impl GitLabConfig {
    /// Whether a user with these roles belongs in the group: holders of the
    /// maintainer role or of the owner role do.
    pub fn manages(&self, roles: &Vec<String>) -> (r: bool)
        ensures
            r == (ids_view(roles@).contains(self.maintainer_role@) || ids_view(roles@).contains(self.owner_role@)),
    {
        let mut i: usize = 0;
        while i < roles.len()
            invariant
                i <= roles.len(),
                forall|j: int|
                    0 <= j < i ==> roles@[j]@ != self.maintainer_role@ && roles@[j]@ != self.owner_role@,
            decreases roles.len() - i,
        {
            if roles[i] == self.maintainer_role || roles[i] == self.owner_role {
                assert(ids_view(roles@)[i as int] == roles@[i as int]@);
                return true;
            }
            i = i + 1;
        }
        false
    }

    /// The access a member with these roles gets: owner for holders of the
    /// owner role, maintainer otherwise.
    pub fn access_level(&self, roles: &Vec<String>) -> (r: AccessLevel)
        ensures
            r == (if ids_view(roles@).contains(self.owner_role@) {
                AccessLevel::Owner
            } else {
                AccessLevel::Maintainer
            }),
    {
        let mut i: usize = 0;
        while i < roles.len()
            invariant
                i <= roles.len(),
                forall|j: int| 0 <= j < i ==> roles@[j]@ != self.owner_role@,
            decreases roles.len() - i,
        {
            if roles[i] == self.owner_role {
                assert(ids_view(roles@)[i as int] == roles@[i as int]@);
                return AccessLevel::Owner;
            }
            i = i + 1;
        }
        AccessLevel::Maintainer
    }
}

/// The usernames of a list of users, in order.
pub fn usernames(users: &Vec<GitlabUser>) -> (r: Vec<String>)
    ensures
        r@.len() == users@.len(),
        forall|i: int| 0 <= i < r@.len() ==> (#[trigger] r@[i])@ == users@[i].username@,
{
    let mut out: Vec<String> = Vec::new();
    let mut i: usize = 0;
    while i < users.len()
        invariant
            i <= users.len(),
            out@.len() == i,
            forall|j: int| 0 <= j < i ==> (#[trigger] out@[j])@ == users@[j].username@,
        decreases users.len() - i,
    {
        out.push(users[i].username.clone());
        i = i + 1;
    }
    out
}

} // verus!
