//! The role catalog: which roles to add to it, and which roles to grant to
//! and take from each user.
use vstd::prelude::*;

use crate::reconcile::ids_view;
use crate::users::{DesiredState, UserModel};

verus! {

/// A role of a backend's catalog.
#[derive(Debug, Clone)]
pub struct KeycloakRole {
    pub id: String,
    pub name: String,
}

impl View for KeycloakRole {
    type V = (Seq<char>, Seq<char>);

    open spec fn view(&self) -> (Seq<char>, Seq<char>) {
        (self.id@, self.name@)
    }
}

/// Models of a sequence of roles.
pub open spec fn roles_view(v: Seq<KeycloakRole>) -> Seq<(Seq<char>, Seq<char>)> {
    v.map_values(|r: KeycloakRole| r@)
}

/// Names of a sequence of roles.
pub open spec fn role_names(v: Seq<KeycloakRole>) -> Seq<Seq<char>> {
    v.map_values(|r: KeycloakRole| r.name@)
}

/// Some desired user holds the role `n`.
pub open spec fn desired_role(d: Seq<(Seq<char>, UserModel)>, n: Seq<char>) -> bool {
    exists|i: int| 0 <= i < d.len() && #[trigger] d[i].1.roles.contains(n)
}

/// The roles that desired users hold and the catalog lacks.
pub open spec fn missing_roles(d: Seq<(Seq<char>, UserModel)>, catalog: Seq<Seq<char>>) -> Set<Seq<char>> {
    Set::new(|n: Seq<char>| desired_role(d, n) && !catalog.contains(n))
}

/// Catalog roles to grant: those named in `config` that are not among `existing`.
pub open spec fn to_add_spec(
    config: Seq<Seq<char>>,
    catalog: Seq<(Seq<char>, Seq<char>)>,
    existing: Seq<(Seq<char>, Seq<char>)>,
) -> Seq<(Seq<char>, Seq<char>)>
    decreases catalog.len(),
{
    if catalog.len() == 0 {
        Seq::empty()
    } else {
        let prev = to_add_spec(config, catalog.drop_last(), existing);
        let c = catalog.last();
        if config.contains(c.1) && !existing.contains(c) {
            prev.push(c)
        } else {
            prev
        }
    }
}

/// Held roles to take away: those not named in `config`.
pub open spec fn to_remove_spec(config: Seq<Seq<char>>, existing: Seq<(Seq<char>, Seq<char>)>) -> Seq<
    (Seq<char>, Seq<char>),
>
    decreases existing.len(),
{
    if existing.len() == 0 {
        Seq::empty()
    } else {
        let prev = to_remove_spec(config, existing.drop_last());
        if config.contains(existing.last().1) {
            prev
        } else {
            prev.push(existing.last())
        }
    }
}

/// Whether a name occurs.
fn has_name(names: &Vec<String>, n: &String) -> (r: bool)
    ensures
        r == ids_view(names@).contains(n@),
{
    let mut i: usize = 0;
    while i < names.len()
        invariant
            i <= names.len(),
            forall|j: int| 0 <= j < i ==> names@[j]@ != n@,
        decreases names.len() - i,
    {
        if names[i] == *n {
            assert(ids_view(names@)[i as int] == n@);
            return true;
        }
        i = i + 1;
    }
    false
}

/// Whether a catalog holds a role of the given name.
fn catalog_has(catalog: &Vec<KeycloakRole>, n: &String) -> (r: bool)
    ensures
        r == role_names(catalog@).contains(n@),
{
    let mut i: usize = 0;
    while i < catalog.len()
        invariant
            i <= catalog.len(),
            forall|j: int| 0 <= j < i ==> catalog@[j].name@ != n@,
        decreases catalog.len() - i,
    {
        if catalog[i].name == *n {
            assert(role_names(catalog@)[i as int] == n@);
            return true;
        }
        i = i + 1;
    }
    false
}

/// Whether a role, by id and name, occurs.
fn has_role(roles: &Vec<KeycloakRole>, r: &KeycloakRole) -> (b: bool)
    ensures
        b == roles_view(roles@).contains(r@),
{
    let mut i: usize = 0;
    while i < roles.len()
        invariant
            i <= roles.len(),
            forall|j: int| 0 <= j < i ==> roles@[j]@ != r@,
        decreases roles.len() - i,
    {
        if roles[i].id == r.id && roles[i].name == r.name {
            assert(roles_view(roles@)[i as int] == r@);
            return true;
        }
        i = i + 1;
    }
    false
}

/// The catalog roles to grant to a user: those whose name the user is meant
/// to hold and that the user does not hold yet, in catalog order.
pub fn roles_to_add(config_roles: &Vec<String>, keycloak_roles: &Vec<KeycloakRole>, existing_roles: &Vec<KeycloakRole>) -> (r:
    Vec<KeycloakRole>)
    ensures
        roles_view(r@) == to_add_spec(ids_view(config_roles@), roles_view(keycloak_roles@), roles_view(existing_roles@)),
{
    let ghost cv = ids_view(config_roles@);
    let ghost kv = roles_view(keycloak_roles@);
    let ghost ev = roles_view(existing_roles@);
    let mut out: Vec<KeycloakRole> = Vec::new();
    let mut i: usize = 0;
    while i < keycloak_roles.len()
        invariant
            i <= keycloak_roles.len(),
            cv == ids_view(config_roles@),
            kv == roles_view(keycloak_roles@),
            ev == roles_view(existing_roles@),
            roles_view(out@) == to_add_spec(cv, kv.subrange(0, i as int), ev),
        decreases keycloak_roles.len() - i,
    {
        assert(kv.subrange(0, i as int + 1).drop_last() == kv.subrange(0, i as int));
        let ghost prev = out@;
        let role = &keycloak_roles[i];
        if has_name(config_roles, &role.name) && !has_role(existing_roles, role) {
            out.push(KeycloakRole { id: role.id.clone(), name: role.name.clone() });
            assert(roles_view(out@) =~= roles_view(prev).push(kv[i as int]));
        }
        i = i + 1;
    }
    assert(kv.subrange(0, kv.len() as int) == kv);
    out
}

/// The roles a user holds but is not meant to hold, in the order held.
pub fn roles_to_remove(config_roles: &Vec<String>, keycloak_roles: &Vec<KeycloakRole>) -> (r: Vec<KeycloakRole>)
    ensures
        roles_view(r@) == to_remove_spec(ids_view(config_roles@), roles_view(keycloak_roles@)),
{
    let ghost cv = ids_view(config_roles@);
    let ghost kv = roles_view(keycloak_roles@);
    let mut out: Vec<KeycloakRole> = Vec::new();
    let mut i: usize = 0;
    while i < keycloak_roles.len()
        invariant
            i <= keycloak_roles.len(),
            cv == ids_view(config_roles@),
            kv == roles_view(keycloak_roles@),
            roles_view(out@) == to_remove_spec(cv, kv.subrange(0, i as int)),
        decreases keycloak_roles.len() - i,
    {
        assert(kv.subrange(0, i as int + 1).drop_last() == kv.subrange(0, i as int));
        let ghost prev = out@;
        let role = &keycloak_roles[i];
        if !has_name(config_roles, &role.name) {
            out.push(KeycloakRole { id: role.id.clone(), name: role.name.clone() });
            assert(roles_view(out@) =~= roles_view(prev).push(kv[i as int]));
        }
        i = i + 1;
    }
    assert(kv.subrange(0, kv.len() as int) == kv);
    out
}

/// The change of one user's roles: catalog roles to grant and held roles to
/// take away.
#[derive(Debug, Clone)]
pub struct RoleAssignment {
    pub roles_to_add: Vec<KeycloakRole>,
    pub roles_to_remove: Vec<KeycloakRole>,
}

impl RoleAssignment {
    /// Whether there is anything to grant; the grant call is skipped otherwise.
    pub fn has_additions(&self) -> (r: bool)
        ensures
            r == (self.roles_to_add@.len() > 0),
    {
        self.roles_to_add.len() > 0
    }
}

/// The change of a user's roles, given the roles the user is meant to hold,
/// the refreshed catalog and the roles the user holds now.
pub fn role_assignment(config_roles: &Vec<String>, catalog: &Vec<KeycloakRole>, existing: &Vec<KeycloakRole>) -> (r:
    RoleAssignment)
    ensures
        roles_view(r.roles_to_add@) == to_add_spec(ids_view(config_roles@), roles_view(catalog@), roles_view(existing@)),
        roles_view(r.roles_to_remove@) == to_remove_spec(ids_view(config_roles@), roles_view(existing@)),
{
    RoleAssignment {
        roles_to_add: roles_to_add(config_roles, catalog, existing),
        roles_to_remove: roles_to_remove(config_roles, existing),
    }
}

/// The roles to add to the catalog: each role that some desired user holds
/// and the catalog lacks, once.
pub fn roles_to_create(users: &DesiredState, catalog: &Vec<KeycloakRole>) -> (r: Vec<String>)
    ensures
        ids_view(r@).no_duplicates(),
        ids_view(r@).to_set() == missing_roles(users@, role_names(catalog@)),
{
    let ghost d = users@;
    let ghost cat = role_names(catalog@);
    let mut out: Vec<String> = Vec::new();
    let mut i: usize = 0;
    while i < users.entries.len()
        invariant
            i <= users.entries.len(),
            d == users@,
            cat == role_names(catalog@),
            ids_view(out@).no_duplicates(),
            forall|x: Seq<char>| #[trigger] ids_view(out@).contains(x) ==> desired_role(d, x) && !cat.contains(x),
            forall|a: int, x: Seq<char>|
                0 <= a < i && #[trigger] d[a].1.roles.contains(x) && !cat.contains(x) ==> ids_view(out@).contains(x),
        decreases users.entries.len() - i,
    {
        let roles = &users.entries[i].1.roles;
        assert(d[i as int].1.roles == ids_view(roles@));
        let mut j: usize = 0;
        while j < roles.len()
            invariant
                i < users.entries.len(),
                j <= roles.len(),
                roles == &users.entries@[i as int].1.roles,
                d == users@,
                d[i as int].1.roles == ids_view(roles@),
                cat == role_names(catalog@),
                ids_view(out@).no_duplicates(),
                forall|x: Seq<char>| #[trigger] ids_view(out@).contains(x) ==> desired_role(d, x) && !cat.contains(x),
                forall|a: int, x: Seq<char>|
                    0 <= a < i && #[trigger] d[a].1.roles.contains(x) && !cat.contains(x) ==> ids_view(out@).contains(x),
                forall|b: int| 0 <= b < j && !cat.contains(roles@[b]@) ==> ids_view(out@).contains(#[trigger] roles@[b]@),
            decreases roles.len() - j,
        {
            let name = &roles[j];
            let ghost prev = ids_view(out@);
            if !catalog_has(catalog, name) && !has_name(&out, name) {
                out.push(name.clone());
                assert(ids_view(out@) =~= prev.push(name@));
                assert(d[i as int].1.roles[j as int] == name@);
                assert(d[i as int].1.roles.contains(name@));
                assert forall|x: Seq<char>| #[trigger] ids_view(out@).contains(x) implies prev.contains(x) || x
                    == name@ by {
                    let k = choose|k: int| 0 <= k < ids_view(out@).len() && ids_view(out@)[k] == x;
                    if k < prev.len() {
                        assert(prev[k] == x);
                    }
                }
                assert forall|x: Seq<char>| prev.contains(x) implies #[trigger] ids_view(out@).contains(x) by {
                    let k = choose|k: int| 0 <= k < prev.len() && prev[k] == x;
                    assert(ids_view(out@)[k] == x);
                }
                assert(ids_view(out@)[prev.len() as int] == name@);
            }
            j = j + 1;
        }
        proof {
            assert forall|a: int, x: Seq<char>|
                0 <= a < i + 1 && #[trigger] d[a].1.roles.contains(x) && !cat.contains(x) implies ids_view(
                out@,
            ).contains(x) by {
                if a == i {
                    let b = choose|b: int| 0 <= b < d[a].1.roles.len() && d[a].1.roles[b] == x;
                    assert(roles@[b]@ == x);
                }
            }
        }
        i = i + 1;
    }
    proof {
        assert forall|x: Seq<char>| #[trigger] missing_roles(d, cat).contains(x) implies ids_view(out@).contains(
            x,
        ) by {
            let a = choose|a: int| 0 <= a < d.len() && #[trigger] d[a].1.roles.contains(x);
        }
        assert(ids_view(out@).to_set() =~= missing_roles(d, cat));
    }
    out
}

/// Running the catalog phase again once the catalog holds what the first run
/// created issues no further creations: if `created` is what the first run
/// adds to catalog `before`, and `after` holds both, then what a second run
/// adds to `after` is empty.
pub proof fn catalog_idempotence(
    d: Seq<(Seq<char>, UserModel)>,
    before: Seq<Seq<char>>,
    created: Seq<Seq<char>>,
    after: Seq<Seq<char>>,
    created_again: Seq<Seq<char>>,
)
    requires
        created.to_set() == missing_roles(d, before),
        forall|n: Seq<char>| before.contains(n) || created.contains(n) ==> #[trigger] after.contains(n),
        created_again.to_set() == missing_roles(d, after),
    ensures
        created_again.len() == 0,
{
    if created_again.len() > 0 {
        let n = created_again[0];
        assert(created_again.to_set().contains(n));
        assert(missing_roles(d, before).contains(n) || before.contains(n));
        assert(created.to_set().contains(n) || before.contains(n));
        assert(after.contains(n));
    }
}

} // verus!
