use thrash::group::{groups_admin_path, groups_path, Group};

#[test]
fn groups_admin() {
    assert_eq!(groups_admin_path(), "rest/api/1.0/admin/groups");
}

#[test]
fn groups() {
    assert_eq!(groups_path(), "rest/api/1.0/groups");
}

#[test]
fn group_name() {
    let g = Group::new("stash-users".to_string());
    assert_eq!(g.name(), "stash-users");
    assert_eq!(g.clone(), g);
}
