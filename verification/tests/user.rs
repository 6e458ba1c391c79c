use thrash::user::{user_path, users_admin_path, users_path, User};

#[test]
fn users_admin() {
    assert_eq!(users_admin_path(), "rest/api/1.0/admin/users");
}

#[test]
fn users() {
    assert_eq!(users_path(), "rest/api/1.0/users");
}

#[test]
fn user() {
    assert_eq!(user_path("foouser"), "rest/api/1.0/users/foouser");
}

#[test]
fn user_record() {
    let u = User::new(
        "foouser".to_string(),
        Some("foo@example.com".to_string()),
        7,
        "foo-user".to_string(),
        true,
        "foouser".to_string(),
        "NORMAL".to_string(),
    );
    assert_eq!(u.name(), "foouser");
    assert_eq!(u.display_name, "foo-user");
    assert_eq!(u.clone(), u);
}
