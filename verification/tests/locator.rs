use thrash::error::ApiError;
use thrash::file::{branch_locations, collect_branches, filter_retained, FileLocation};
use thrash::project::{Project, ProjectRef};
use thrash::repository::Repository;

fn project(key: &str) -> Project {
    Project::new(
        key.to_string(),
        1,
        format!("{} Project", key),
        None,
        false,
        "NORMAL".to_string(),
    )
}

fn repository(project_key: &str, slug: &str) -> Repository {
    Repository::new(
        slug.to_string(),
        1,
        slug.to_string(),
        "git".to_string(),
        "AVAILABLE".to_string(),
        "Available".to_string(),
        true,
        ProjectRef::new(project_key.to_string()),
        false,
    )
}

#[test]
fn pruning_rejected_project_never_descended() {
    let projects = vec![project("KEEP"), project("PRUNE"), project("ALSO")];
    let retained = filter_retained(projects, |p: &Project| p.key() != "PRUNE");
    let keys: Vec<&str> = retained.iter().map(|p| p.key()).collect();
    assert_eq!(keys, vec!["KEEP", "ALSO"]);
}

#[test]
fn filter_retains_in_order() {
    let items = vec![1u64, 2, 3, 4, 5];
    let even = filter_retained(items, |n: &u64| n % 2 == 0);
    assert_eq!(even, vec![2, 4]);
}

#[test]
fn branch_yields_matching_locations() {
    let p = project("FOO");
    let r = repository("FOO", "foo-repo-1");
    let paths = vec!["src/a.rs".to_string(), "README.md".to_string(), "src/b.rs".to_string()];
    let locations = branch_locations(&p, &r, paths, |path: &String| path.starts_with("src/"));
    assert_eq!(locations.len(), 2);
    assert_eq!(locations[0].path, "src/a.rs");
    assert_eq!(locations[1].path, "src/b.rs");
    assert_eq!(locations[0].project.key(), "FOO");
    assert_eq!(locations[0].repository.slug(), "foo-repo-1");
}

#[test]
fn branch_isolation() {
    // A failing branch does not stop an independent branch from producing
    // its locations; the overall fold still reports an error.
    let p2 = project("P2");
    let r2 = repository("P2", "repo");
    let p2_locations = branch_locations(
        &p2,
        &r2,
        vec!["a".to_string(), "b".to_string()],
        |_: &String| true,
    );
    assert_eq!(p2_locations.len(), 2);

    let branches = vec![
        Err(ApiError::Transport("repository listing failed for P1".to_string())),
        Ok(p2_locations),
    ];
    match collect_branches(branches) {
        Err(ApiError::Aggregate(inner)) => {
            assert_eq!(
                *inner,
                ApiError::Transport("repository listing failed for P1".to_string())
            );
        }
        other => panic!("expected an aggregate error, got {:?}", other),
    }
}

#[test]
fn collect_concatenates_successful_branches() {
    let p = project("FOO");
    let r = repository("FOO", "repo");
    let first = branch_locations(&p, &r, vec!["a".to_string()], |_: &String| true);
    let second = branch_locations(&p, &r, vec!["b".to_string(), "c".to_string()], |_: &String| {
        true
    });
    let all = collect_branches(vec![Ok(first), Ok(second)]).unwrap();
    let paths: Vec<&str> = all.iter().map(|l| l.path.as_str()).collect();
    assert_eq!(paths, vec!["a", "b", "c"]);
}

#[test]
fn first_error_in_branch_order_wins() {
    let branches: Vec<Result<Vec<FileLocation>, ApiError>> = vec![
        Ok(Vec::new()),
        Err(ApiError::Transport("first".to_string())),
        Err(ApiError::Transport("second".to_string())),
    ];
    match collect_branches(branches) {
        Err(ApiError::Aggregate(inner)) => {
            assert_eq!(*inner, ApiError::Transport("first".to_string()));
        }
        other => panic!("expected an aggregate error, got {:?}", other),
    }
}

#[test]
fn file_location_holds_its_parts() {
    let loc = FileLocation::new(project("FOO"), repository("FOO", "repo"), "path".to_string());
    let copy = loc.clone();
    assert_eq!(copy.path, "path");
    assert_eq!(copy.project.key(), "FOO");
    assert_eq!(copy.repository.slug(), "repo");
}
