use thrash::auth::access::{
    access_ops, compute_plan, global_group_permissions_path, group_grant_pairs,
    project_group_permissions_path, project_keys_path, project_user_permissions_path,
    repository_group_permissions_path, repository_keys_path, repository_user_permissions_path,
    set_project_group_access, set_project_user_access, set_repository_group_access,
    set_repository_user_access, AccessOp, GroupAccess, UserAccess,
};
use thrash::auth::permission::{GlobalPermission, ProjectPermission, RepositoryPermission};
use thrash::group::Group;
use thrash::user::User;

fn group(name: &str) -> Group {
    Group::new(name.to_string())
}

fn user(name: &str) -> User {
    User::new(
        name.to_string(),
        None,
        1,
        name.to_string(),
        true,
        name.to_string(),
        "NORMAL".to_string(),
    )
}

#[test]
fn group_access() {
    assert_eq!(global_group_permissions_path(), "rest/api/1.0/admin/permissions/groups");
}

#[test]
fn project_group_access() {
    assert_eq!(
        project_group_permissions_path("FOO"),
        "rest/api/1.0/projects/FOO/permissions/groups"
    );
}

#[test]
fn repository_group_access() {
    assert_eq!(
        repository_group_permissions_path("FOO", "foo-repo-1"),
        "rest/api/1.0/projects/FOO/repos/foo-repo-1/permissions/groups"
    );
}

#[test]
fn project_user_access() {
    assert_eq!(
        project_user_permissions_path("FOO"),
        "rest/api/1.0/projects/FOO/permissions/users"
    );
}

#[test]
fn repository_user_access() {
    assert_eq!(
        repository_user_permissions_path("FOO", "foo-repo-1"),
        "rest/api/1.0/projects/FOO/repos/foo-repo-1/permissions/users"
    );
}

#[test]
fn key_access_paths() {
    assert_eq!(project_keys_path("FOO"), "rest/keys/1.0/projects/FOO/ssh");
    assert_eq!(
        repository_keys_path("FOO", "foo-repo-1"),
        "rest/keys/1.0/projects/FOO/repos/foo-repo-1/ssh"
    );
}

#[test]
fn reconciliation_diff_correctness() {
    let current = vec![GroupAccess::new(group("G1"), ProjectPermission::Read)];
    let desired = vec![GroupAccess::new(group("G1"), ProjectPermission::Write)];
    let ops = set_project_group_access("FOO", &current, &desired);
    assert_eq!(
        ops,
        vec![
            AccessOp::Remove {
                path: "rest/api/1.0/projects/FOO/permissions/groups?name=G1".to_string(),
            },
            AccessOp::Add {
                path: "rest/api/1.0/projects/FOO/permissions/groups?permission=PROJECT_WRITE&name=G1"
                    .to_string(),
            },
        ]
    );
}

#[test]
fn removals_precede_additions() {
    let current = vec![
        GroupAccess::new(group("old"), RepositoryPermission::Admin),
        GroupAccess::new(group("both"), RepositoryPermission::Read),
    ];
    let desired = vec![
        GroupAccess::new(group("new"), RepositoryPermission::Write),
        GroupAccess::new(group("both"), RepositoryPermission::Read),
    ];
    let ops = set_repository_group_access("FOO", "foo-repo-1", &current, &desired);
    assert_eq!(ops.len(), 2);
    assert!(matches!(ops[0], AccessOp::Remove { .. }));
    assert!(matches!(ops[1], AccessOp::Add { .. }));
}

#[test]
fn no_op_on_equality() {
    let current = vec![
        UserAccess::new(user("alice"), ProjectPermission::Admin),
        UserAccess::new(user("bob"), ProjectPermission::Read),
    ];
    let desired = vec![
        UserAccess::new(user("alice"), ProjectPermission::Admin),
        UserAccess::new(user("bob"), ProjectPermission::Read),
    ];
    let ops = set_project_user_access("FOO", &current, &desired);
    assert!(ops.is_empty());
}

#[test]
fn reconciliation_idempotence() {
    let current = vec![UserAccess::new(user("alice"), RepositoryPermission::Read)];
    let desired = vec![UserAccess::new(user("alice"), RepositoryPermission::Admin)];
    let first = set_repository_user_access("FOO", "foo-repo-1", &current, &desired);
    assert_eq!(first.len(), 2);
    // After the server applies the first pass, the current state equals the
    // desired one; the second pass plans nothing.
    let second = set_repository_user_access("FOO", "foo-repo-1", &desired, &desired);
    assert!(second.is_empty());
}

#[test]
fn principal_names_are_percent_encoded() {
    let current = vec![GroupAccess::new(group("dev&ops"), ProjectPermission::Read)];
    let desired = vec![];
    let ops = set_project_group_access("FOO", &current, &desired);
    assert_eq!(
        ops,
        vec![AccessOp::Remove {
            path: "rest/api/1.0/projects/FOO/permissions/groups?name=dev%26ops".to_string(),
        }]
    );
}

#[test]
fn compute_plan_diffs_pairs() {
    let current = vec![
        ("gone".to_string(), GlobalPermission::Read),
        ("stays".to_string(), GlobalPermission::Write),
        ("changes".to_string(), GlobalPermission::Read),
    ];
    let desired = vec![
        ("stays".to_string(), GlobalPermission::Write),
        ("changes".to_string(), GlobalPermission::Admin),
        ("fresh".to_string(), GlobalPermission::Read),
    ];
    let plan = compute_plan(&current, &desired);
    assert_eq!(plan.removals, vec!["gone".to_string(), "changes".to_string()]);
    assert_eq!(
        plan.additions,
        vec![
            ("changes".to_string(), GlobalPermission::Admin),
            ("fresh".to_string(), GlobalPermission::Read),
        ]
    );
}

#[test]
fn access_ops_orders_phases() {
    let current = vec![("a".to_string(), GlobalPermission::Read)];
    let desired = vec![("a".to_string(), GlobalPermission::Admin)];
    let ops = access_ops("base", &current, &desired);
    assert_eq!(
        ops,
        vec![
            AccessOp::Remove { path: "base?name=a".to_string() },
            AccessOp::Add { path: "base?permission=ADMIN&name=a".to_string() },
        ]
    );
}

#[test]
fn grant_pair_conversion() {
    let grants = vec![GroupAccess::new(group("g"), ProjectPermission::Read)];
    let pairs = group_grant_pairs(&grants);
    assert_eq!(pairs, vec![("g".to_string(), ProjectPermission::Read)]);
}

#[test]
fn access_getters() {
    let ga = GroupAccess::new(group("g"), ProjectPermission::Read);
    assert_eq!(ga.group().name(), "g");
    assert_eq!(*ga.permission(), ProjectPermission::Read);
    let ua = UserAccess::new(user("u"), RepositoryPermission::Write);
    assert_eq!(ua.user().name(), "u");
    assert_eq!(*ua.permission(), RepositoryPermission::Write);
}
