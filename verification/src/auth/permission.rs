use vstd::prelude::*;
use vstd::string::StringExecFns;
use crate::client::str_eq;
use crate::error::ApiError;

verus! {

/// The server's answer to a default-permission probe.
#[derive(Debug)]
pub struct PermissionStatus {
    pub permitted: bool,
}

/// A scope's closed, ordered permission vocabulary. Each level has
/// exactly one wire encoding, and levels can be compared.
pub trait PermissionLevel: Sized + Copy {
    /// The wire string of this level.
    spec fn wire_view(self) -> Seq<char>;

    /// Renders this level's wire string.
    fn wire(&self) -> (r: String)
        ensures
            r@ == self.wire_view(),
    ;

    /// Whether two levels are the same level.
    fn same_level(&self, other: &Self) -> (r: bool)
        ensures
            r == (*self == *other),
    ;
}

/// The message of the decode error for an unrecognized permission string.
pub open spec fn decode_error_message(s: Seq<char>) -> Seq<char> {
    "unexpected permission "@ + s
}

fn unexpected_permission(s: &str) -> (r: ApiError)
    ensures
        r matches ApiError::Decode(m) && m@ == decode_error_message(s@),
{
    let mut m = "unexpected permission ".to_owned();
    m.append(s);
    ApiError::Decode(m)
}

/// Project-scope permission levels, encoded on the wire as
/// `PROJECT_READ`, `PROJECT_WRITE` and `PROJECT_ADMIN`.
#[derive(Clone, Copy, Debug, PartialEq, Eq, Hash, Structural)]
pub enum ProjectPermission {
    Read,
    Write,
    Admin,
}

/// The project permission level a wire string stands for, if any.
pub open spec fn project_permission_of(s: Seq<char>) -> Option<ProjectPermission> {
    if s == "PROJECT_READ"@ {
        Some(ProjectPermission::Read)
    } else if s == "PROJECT_WRITE"@ {
        Some(ProjectPermission::Write)
    } else if s == "PROJECT_ADMIN"@ {
        Some(ProjectPermission::Admin)
    } else {
        None
    }
}

impl ProjectPermission {
    /// Decodes a wire string; an unrecognized string is rejected with a
    /// decode error, never accepted silently.
    pub fn from_wire(s: &str) -> (r: Result<ProjectPermission, ApiError>)
        ensures
            project_permission_of(s@) matches Some(p) ==> r == Ok::<ProjectPermission, ApiError>(
                p,
            ),
            project_permission_of(s@) is None ==> (r matches Err(e) && e matches ApiError::Decode(m)
                && m@ == decode_error_message(s@)),
    {
        if str_eq(s, "PROJECT_READ") {
            Ok(ProjectPermission::Read)
        } else if str_eq(s, "PROJECT_WRITE") {
            Ok(ProjectPermission::Write)
        } else if str_eq(s, "PROJECT_ADMIN") {
            Ok(ProjectPermission::Admin)
        } else {
            Err(unexpected_permission(s))
        }
    }
}

impl PermissionLevel for ProjectPermission {
    open spec fn wire_view(self) -> Seq<char> {
        match self {
            ProjectPermission::Read => "PROJECT_READ"@,
            ProjectPermission::Write => "PROJECT_WRITE"@,
            ProjectPermission::Admin => "PROJECT_ADMIN"@,
        }
    }

    fn wire(&self) -> (r: String) {
        match self {
            ProjectPermission::Read => "PROJECT_READ".to_owned(),
            ProjectPermission::Write => "PROJECT_WRITE".to_owned(),
            ProjectPermission::Admin => "PROJECT_ADMIN".to_owned(),
        }
    }

    fn same_level(&self, other: &Self) -> (r: bool) {
        *self == *other
    }
}

/// Repository-scope permission levels, encoded on the wire as
/// `REPO_READ`, `REPO_WRITE` and `REPO_ADMIN`.
#[derive(Clone, Copy, Debug, PartialEq, Eq, Hash, Structural)]
pub enum RepositoryPermission {
    Read,
    Write,
    Admin,
}

/// The repository permission level a wire string stands for, if any.
pub open spec fn repository_permission_of(s: Seq<char>) -> Option<RepositoryPermission> {
    if s == "REPO_READ"@ {
        Some(RepositoryPermission::Read)
    } else if s == "REPO_WRITE"@ {
        Some(RepositoryPermission::Write)
    } else if s == "REPO_ADMIN"@ {
        Some(RepositoryPermission::Admin)
    } else {
        None
    }
}

impl RepositoryPermission {
    /// Decodes a wire string; an unrecognized string is rejected with a
    /// decode error, never accepted silently.
    pub fn from_wire(s: &str) -> (r: Result<RepositoryPermission, ApiError>)
        ensures
            repository_permission_of(s@) matches Some(p) ==> r == Ok::<
                RepositoryPermission,
                ApiError,
            >(p),
            repository_permission_of(s@) is None ==> (r matches Err(e) && e matches
                ApiError::Decode(m) && m@ == decode_error_message(s@)),
    {
        if str_eq(s, "REPO_READ") {
            Ok(RepositoryPermission::Read)
        } else if str_eq(s, "REPO_WRITE") {
            Ok(RepositoryPermission::Write)
        } else if str_eq(s, "REPO_ADMIN") {
            Ok(RepositoryPermission::Admin)
        } else {
            Err(unexpected_permission(s))
        }
    }
}

impl PermissionLevel for RepositoryPermission {
    open spec fn wire_view(self) -> Seq<char> {
        match self {
            RepositoryPermission::Read => "REPO_READ"@,
            RepositoryPermission::Write => "REPO_WRITE"@,
            RepositoryPermission::Admin => "REPO_ADMIN"@,
        }
    }

    fn wire(&self) -> (r: String) {
        match self {
            RepositoryPermission::Read => "REPO_READ".to_owned(),
            RepositoryPermission::Write => "REPO_WRITE".to_owned(),
            RepositoryPermission::Admin => "REPO_ADMIN".to_owned(),
        }
    }

    fn same_level(&self, other: &Self) -> (r: bool) {
        *self == *other
    }
}

/// Global permission levels, encoded on the wire as `READ`, `WRITE` and
/// `ADMIN`.
#[derive(Clone, Copy, Debug, PartialEq, Eq, Hash, Structural)]
pub enum GlobalPermission {
    Read,
    Write,
    Admin,
}

/// The global permission level a wire string stands for, if any.
pub open spec fn global_permission_of(s: Seq<char>) -> Option<GlobalPermission> {
    if s == "READ"@ {
        Some(GlobalPermission::Read)
    } else if s == "WRITE"@ {
        Some(GlobalPermission::Write)
    } else if s == "ADMIN"@ {
        Some(GlobalPermission::Admin)
    } else {
        None
    }
}

impl GlobalPermission {
    /// Decodes a wire string; an unrecognized string is rejected with a
    /// decode error, never accepted silently.
    pub fn from_wire(s: &str) -> (r: Result<GlobalPermission, ApiError>)
        ensures
            global_permission_of(s@) matches Some(p) ==> r == Ok::<GlobalPermission, ApiError>(p),
            global_permission_of(s@) is None ==> (r matches Err(e) && e matches ApiError::Decode(m)
                && m@ == decode_error_message(s@)),
    {
        if str_eq(s, "READ") {
            Ok(GlobalPermission::Read)
        } else if str_eq(s, "WRITE") {
            Ok(GlobalPermission::Write)
        } else if str_eq(s, "ADMIN") {
            Ok(GlobalPermission::Admin)
        } else {
            Err(unexpected_permission(s))
        }
    }
}

impl PermissionLevel for GlobalPermission {
    open spec fn wire_view(self) -> Seq<char> {
        match self {
            GlobalPermission::Read => "READ"@,
            GlobalPermission::Write => "WRITE"@,
            GlobalPermission::Admin => "ADMIN"@,
        }
    }

    fn wire(&self) -> (r: String) {
        match self {
            GlobalPermission::Read => "READ".to_owned(),
            GlobalPermission::Write => "WRITE".to_owned(),
            GlobalPermission::Admin => "ADMIN".to_owned(),
        }
    }

    fn same_level(&self, other: &Self) -> (r: bool) {
        *self == *other
    }
}

/// Law: each project level's wire string decodes back to that level.
pub proof fn lemma_project_wire_round_trip(p: ProjectPermission)
    ensures
        project_permission_of(p.wire_view()) == Some(p),
{
    reveal_strlit("PROJECT_READ");
    reveal_strlit("PROJECT_WRITE");
    reveal_strlit("PROJECT_ADMIN");
    assert("PROJECT_READ"@.len() == 12);
    assert("PROJECT_WRITE"@.len() == 13);
    assert("PROJECT_ADMIN"@.len() == 13);
    assert("PROJECT_WRITE"@[8] == 'W');
    assert("PROJECT_ADMIN"@[8] == 'A');
}

/// Law: each repository level's wire string decodes back to that level.
pub proof fn lemma_repository_wire_round_trip(p: RepositoryPermission)
    ensures
        repository_permission_of(p.wire_view()) == Some(p),
{
    reveal_strlit("REPO_READ");
    reveal_strlit("REPO_WRITE");
    reveal_strlit("REPO_ADMIN");
    assert("REPO_READ"@.len() == 9);
    assert("REPO_WRITE"@.len() == 10);
    assert("REPO_ADMIN"@.len() == 10);
    assert("REPO_WRITE"@[5] == 'W');
    assert("REPO_ADMIN"@[5] == 'A');
}

/// Law: each global level's wire string decodes back to that level.
pub proof fn lemma_global_wire_round_trip(p: GlobalPermission)
    ensures
        global_permission_of(p.wire_view()) == Some(p),
{
    reveal_strlit("READ");
    reveal_strlit("WRITE");
    reveal_strlit("ADMIN");
    assert("READ"@.len() == 4);
    assert("WRITE"@.len() == 5);
    assert("ADMIN"@.len() == 5);
    assert("WRITE"@[0] == 'W');
    assert("ADMIN"@[0] == 'A');
}

/// The path that asks whether a project permission level is granted to
/// all users by default.
pub open spec fn project_permission_check_path_spec(
    project_key: Seq<char>,
    wire: Seq<char>,
) -> Seq<char> {
    "rest/api/1.0/projects/"@ + project_key + "/permissions/"@ + wire + "/all"@
}

/// Builds the path of one default-permission probe.
pub fn project_permission_check_path(project_key: &str, wire: &str) -> (r: String)
    ensures
        r@ == project_permission_check_path_spec(project_key@, wire@),
{
    let mut r = "rest/api/1.0/projects/".to_owned();
    r.append(project_key);
    r.append("/permissions/");
    r.append(wire);
    r.append("/all");
    r
}

/// The wire strings of the project levels in probe order: READ first,
/// then WRITE, then ADMIN.
pub fn project_permission_probe_order() -> (r: Vec<String>)
    ensures
        r@.len() == 3,
        r@[0]@ == "PROJECT_READ"@,
        r@[1]@ == "PROJECT_WRITE"@,
        r@[2]@ == "PROJECT_ADMIN"@,
{
    let mut r: Vec<String> = Vec::new();
    r.push("PROJECT_READ".to_owned());
    r.push("PROJECT_WRITE".to_owned());
    r.push("PROJECT_ADMIN".to_owned());
    r
}

/// What the probe results gathered so far decide: the wire string of the
/// first permitted level in probe order; the `PROJECT_NONE` sentinel once
/// all three probes have denied; nothing yet otherwise.
pub open spec fn default_permission_outcome(probed: Seq<bool>) -> Option<Seq<char>> {
    if probed.len() > 0 && probed[0] {
        Some("PROJECT_READ"@)
    } else if probed.len() > 1 && probed[1] {
        Some("PROJECT_WRITE"@)
    } else if probed.len() > 2 && probed[2] {
        Some("PROJECT_ADMIN"@)
    } else if probed.len() >= 3 {
        Some("PROJECT_NONE"@)
    } else {
        None
    }
}

/// Decides the project default permission from the probes made so far,
/// in probe order; `None` asks the caller to probe the next level.
pub fn project_default_permission(probed: &Vec<PermissionStatus>) -> (r: Option<String>)
    ensures
        match default_permission_outcome(probed@.map_values(|st: PermissionStatus| st.permitted)) {
            Some(s) => r matches Some(t) && t@ == s,
            None => r is None,
        },
{
    if probed.len() > 0 && probed[0].permitted {
        Some("PROJECT_READ".to_owned())
    } else if probed.len() > 1 && probed[1].permitted {
        Some("PROJECT_WRITE".to_owned())
    } else if probed.len() > 2 && probed[2].permitted {
        Some("PROJECT_ADMIN".to_owned())
    } else if probed.len() >= 3 {
        Some("PROJECT_NONE".to_owned())
    } else {
        None
    }
}

} // verus!
