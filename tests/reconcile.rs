use benutzerverwaltung::reconcile::{operations, plan, Operation};
use benutzerverwaltung::roles::{role_assignment, roles_to_add, roles_to_create, roles_to_remove, KeycloakRole};
use benutzerverwaltung::services::{usernames, AccessLevel, GitLabConfig, GitlabUser};
use benutzerverwaltung::users::{DesiredState, UserConfig};

fn strs(v: &[&str]) -> Vec<String> {
    v.iter().map(|s| s.to_string()).collect()
}

fn role(id: &str, name: &str) -> KeycloakRole {
    KeycloakRole { id: id.to_string(), name: name.to_string() }
}

fn user(roles: &[&str]) -> UserConfig {
    UserConfig {
        first_name: None,
        last_name: None,
        email: None,
        matrix_id: None,
        roles: strs(roles),
        enabled: true,
    }
}

#[test]
fn plan_partitions_identifiers() {
    let desired = strs(&["a", "b", "c"]);
    let actual = strs(&["c", "d", "a", "e"]);
    let p = plan(&desired, &actual);
    assert_eq!(p.to_create, vec![1]);
    assert_eq!(p.to_update, vec![(0, 2), (2, 0)]);
    assert_eq!(p.to_delete, vec![1, 3]);
}

#[test]
fn plan_on_empty_sides() {
    let p = plan(&strs(&[]), &strs(&["x"]));
    assert!(p.to_create.is_empty() && p.to_update.is_empty());
    assert_eq!(p.to_delete, vec![0]);
    let p = plan(&strs(&["x", "y"]), &strs(&[]));
    assert_eq!(p.to_create, vec![0, 1]);
    assert!(p.to_update.is_empty() && p.to_delete.is_empty());
}

#[test]
fn operations_apply_creates_then_updates_then_deletes() {
    let p = plan(&strs(&["a", "b"]), &strs(&["b", "z"]));
    let ops = operations(&p);
    assert_eq!(ops, vec![Operation::Create(0), Operation::Update(0, 1), Operation::Delete(1)]);
}

#[test]
fn catalog_phase_twice_creates_nothing_new() {
    let mut state = DesiredState::new();
    state.insert_merge("u1".to_string(), user(&["A", "B", "A"]));
    state.insert_merge("u2".to_string(), user(&["B", "C"]));
    let catalog = vec![role("1", "B")];
    let created = roles_to_create(&state, &catalog);
    assert_eq!(created, strs(&["A", "C"]));
    let mut refreshed = catalog.clone();
    for (i, n) in created.iter().enumerate() {
        refreshed.push(role(&format!("n{}", i), n));
    }
    assert!(roles_to_create(&state, &refreshed).is_empty());
}

#[test]
fn roles_to_add_and_remove() {
    let config = strs(&["A", "B"]);
    let catalog = vec![role("1", "A"), role("2", "B"), role("3", "C")];
    let existing = vec![role("1", "A"), role("3", "C")];
    let add = roles_to_add(&config, &catalog, &existing);
    assert_eq!(add.len(), 1);
    assert_eq!(add[0].id, "2");
    let remove = roles_to_remove(&config, &existing);
    assert_eq!(remove.len(), 1);
    assert_eq!(remove[0].name, "C");
    let a = role_assignment(&config, &catalog, &existing);
    assert!(a.has_additions());
    assert_eq!(a.roles_to_remove.len(), 1);
    let none = role_assignment(&config, &catalog, &vec![role("1", "A"), role("2", "B")]);
    assert!(!none.has_additions());
    assert!(none.roles_to_remove.is_empty());
}

#[test]
fn gitlab_membership_rules() {
    let cfg = GitLabConfig {
        token: "SECRET-REDACTED".to_string(),
        url: "https://git.example".to_string(),
        group_id: 5,
        owner_role: "Owner".to_string(),
        maintainer_role: "Dev".to_string(),
    };
    assert!(cfg.manages(&strs(&["x", "Dev"])));
    assert!(cfg.manages(&strs(&["Owner"])));
    assert!(!cfg.manages(&strs(&["x"])));
    assert_eq!(cfg.access_level(&strs(&["Dev", "Owner"])), AccessLevel::Owner);
    assert_eq!(cfg.access_level(&strs(&["Dev"])), AccessLevel::Maintainer);
    let users = vec![GitlabUser { id: 3, username: "jdoe".to_string() }];
    assert_eq!(usernames(&users), strs(&["jdoe"]));
}
