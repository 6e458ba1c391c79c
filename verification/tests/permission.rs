use thrash::auth::permission::{
    project_default_permission, project_permission_check_path, project_permission_probe_order,
    GlobalPermission, PermissionLevel, PermissionStatus, ProjectPermission, RepositoryPermission,
};
use thrash::error::ApiError;

fn statuses(bits: &[bool]) -> Vec<PermissionStatus> {
    bits.iter().map(|&permitted| PermissionStatus { permitted }).collect()
}

#[test]
fn project_default_permission_none() {
    let probed = statuses(&[false, false, false]);
    assert_eq!(project_default_permission(&probed), Some("PROJECT_NONE".to_string()));
}

#[test]
fn project_default_permission_stops_at_first_permitted() {
    // WRITE is checked before ADMIN; a permitted WRITE decides without a
    // third probe.
    let probed = statuses(&[false, true]);
    assert_eq!(project_default_permission(&probed), Some("PROJECT_WRITE".to_string()));
    let probed = statuses(&[true]);
    assert_eq!(project_default_permission(&probed), Some("PROJECT_READ".to_string()));
}

#[test]
fn project_default_permission_asks_for_more_probes() {
    assert_eq!(project_default_permission(&statuses(&[])), None);
    assert_eq!(project_default_permission(&statuses(&[false])), None);
    assert_eq!(project_default_permission(&statuses(&[false, false])), None);
}

#[test]
fn permission_probe_paths() {
    assert_eq!(
        project_permission_check_path("FOO", "PROJECT_READ"),
        "rest/api/1.0/projects/FOO/permissions/PROJECT_READ/all"
    );
    let order = project_permission_probe_order();
    assert_eq!(
        order,
        vec![
            "PROJECT_READ".to_string(),
            "PROJECT_WRITE".to_string(),
            "PROJECT_ADMIN".to_string()
        ]
    );
}

#[test]
fn project_permission_codec() {
    assert_eq!(ProjectPermission::from_wire("PROJECT_READ"), Ok(ProjectPermission::Read));
    assert_eq!(ProjectPermission::from_wire("PROJECT_WRITE"), Ok(ProjectPermission::Write));
    assert_eq!(ProjectPermission::from_wire("PROJECT_ADMIN"), Ok(ProjectPermission::Admin));
    assert_eq!(ProjectPermission::Admin.wire(), "PROJECT_ADMIN");
    match ProjectPermission::from_wire("PROJECT_OWNER") {
        Err(ApiError::Decode(m)) => assert_eq!(m, "unexpected permission PROJECT_OWNER"),
        other => panic!("expected a decode error, got {:?}", other),
    }
}

#[test]
fn repository_permission_codec() {
    assert_eq!(RepositoryPermission::from_wire("REPO_READ"), Ok(RepositoryPermission::Read));
    assert_eq!(RepositoryPermission::from_wire("REPO_WRITE"), Ok(RepositoryPermission::Write));
    assert_eq!(RepositoryPermission::from_wire("REPO_ADMIN"), Ok(RepositoryPermission::Admin));
    assert_eq!(RepositoryPermission::Read.wire(), "REPO_READ");
    match RepositoryPermission::from_wire("REPO_OWNER") {
        Err(ApiError::Decode(m)) => assert_eq!(m, "unexpected permission REPO_OWNER"),
        other => panic!("expected a decode error, got {:?}", other),
    }
}

#[test]
fn global_permission_codec() {
    assert_eq!(GlobalPermission::from_wire("READ"), Ok(GlobalPermission::Read));
    assert_eq!(GlobalPermission::from_wire("WRITE"), Ok(GlobalPermission::Write));
    assert_eq!(GlobalPermission::from_wire("ADMIN"), Ok(GlobalPermission::Admin));
    assert_eq!(GlobalPermission::Write.wire(), "WRITE");
    match GlobalPermission::from_wire("SYS_ADMIN") {
        Err(ApiError::Decode(m)) => assert_eq!(m, "unexpected permission SYS_ADMIN"),
        other => panic!("expected a decode error, got {:?}", other),
    }
}
