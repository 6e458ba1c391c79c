use thrash::project::{project_path, projects_path, Project, ProjectRef};

#[test]
fn projects() {
    assert_eq!(projects_path(), "rest/api/1.0/projects");
}

#[test]
fn project() {
    assert_eq!(project_path("FOO"), "rest/api/1.0/projects/FOO");
}

#[test]
fn project_record() {
    let p = Project::new(
        "FOO".to_string(),
        1,
        "Foo Project".to_string(),
        Some("A project".to_string()),
        false,
        "NORMAL".to_string(),
    );
    assert_eq!(p.key(), "FOO");
    assert_eq!(p.name(), "Foo Project");
    assert_eq!(p.clone(), p);
}

#[test]
fn project_ref_holds_key() {
    let r = ProjectRef::new("FOO".to_string());
    assert_eq!(r.key, "FOO");
    assert_eq!(r.clone(), r);
}
