use thrash::project::ProjectRef;
use thrash::repository::{
    join_lines, repositories_path, repository_browse_path, repository_files_path, repository_path,
    Repository,
};

#[test]
fn repositories() {
    assert_eq!(repositories_path("FOO"), "rest/api/1.0/projects/FOO/repos");
}

#[test]
fn repository() {
    assert_eq!(
        repository_path("FOO", "foo-repo-1"),
        "rest/api/1.0/projects/FOO/repos/foo-repo-1"
    );
}

#[test]
fn repository_files() {
    assert_eq!(
        repository_files_path("FOO", "foo-repo-1"),
        "rest/api/1.0/projects/FOO/repos/foo-repo-1/files"
    );
}

#[test]
fn repository_file_contents() {
    assert_eq!(
        repository_browse_path("FOO", "foo-repo-1", "foo"),
        "rest/api/1.0/projects/FOO/repos/foo-repo-1/browse/foo"
    );
    let lines = vec!["line1".to_string(), "line2".to_string()];
    assert_eq!(join_lines(&lines), "line1\nline2");
}

#[test]
fn join_lines_edge_cases() {
    assert_eq!(join_lines(&Vec::new()), "");
    assert_eq!(join_lines(&vec!["only".to_string()]), "only");
    assert_eq!(
        join_lines(&vec!["".to_string(), "".to_string(), "x".to_string()]),
        "\n\nx"
    );
}

#[test]
fn repository_record() {
    let r = Repository::new(
        "foo-repo-1".to_string(),
        1,
        "foo-repo-1".to_string(),
        "git".to_string(),
        "AVAILABLE".to_string(),
        "Available".to_string(),
        true,
        ProjectRef::new("FOO".to_string()),
        false,
    );
    assert_eq!(r.slug(), "foo-repo-1");
    assert_eq!(r.name(), "foo-repo-1");
    assert_eq!(r.clone().project.key, "FOO");
}
