use vstd::prelude::*;
use vstd::string::StringExecFns;
use crate::project::ProjectRef;

verus! {

/// A repository as the server describes it.
#[derive(Debug)]
pub struct Repository {
    pub slug: String,
    pub id: u64,
    pub name: String,
    pub scm_id: String,
    pub state: String,
    pub status_message: String,
    pub forkable: bool,
    pub project: ProjectRef,
    pub public: bool,
}

impl Repository {
    pub fn new(
        slug: String,
        id: u64,
        name: String,
        scm_id: String,
        state: String,
        status_message: String,
        forkable: bool,
        project: ProjectRef,
        public: bool,
    ) -> (r: Repository)
        ensures
            r.slug == slug,
            r.id == id,
            r.name == name,
            r.scm_id == scm_id,
            r.state == state,
            r.status_message == status_message,
            r.forkable == forkable,
            r.project == project,
            r.public == public,
    {
        Repository { slug, id, name, scm_id, state, status_message, forkable, project, public }
    }

    pub fn name(&self) -> (r: &str)
        ensures
            r@ == self.name@,
    {
        self.name.as_str()
    }

    pub fn slug(&self) -> (r: &str)
        ensures
            r@ == self.slug@,
    {
        self.slug.as_str()
    }
}

impl Clone for Repository {
    fn clone(&self) -> (r: Self)
        ensures
            r == *self,
    {
        Repository {
            slug: self.slug.clone(),
            id: self.id,
            name: self.name.clone(),
            scm_id: self.scm_id.clone(),
            state: self.state.clone(),
            status_message: self.status_message.clone(),
            forkable: self.forkable,
            project: self.project.clone(),
            public: self.public,
        }
    }
}

/// The path listing a project's repositories.
pub fn repositories_path(project_key: &str) -> (r: String)
    ensures
        r@ == "rest/api/1.0/projects/"@ + project_key@ + "/repos"@,
{
    let mut r = "rest/api/1.0/projects/".to_owned();
    r.append(project_key);
    r.append("/repos");
    r
}

/// The path of one repository.
pub fn repository_path(project_key: &str, repository_slug: &str) -> (r: String)
    ensures
        r@ == "rest/api/1.0/projects/"@ + project_key@ + "/repos/"@ + repository_slug@,
{
    let mut r = "rest/api/1.0/projects/".to_owned();
    r.append(project_key);
    r.append("/repos/");
    r.append(repository_slug);
    r
}

/// The path listing a repository's file paths.
pub fn repository_files_path(project_key: &str, repository_slug: &str) -> (r: String)
    ensures
        r@ == "rest/api/1.0/projects/"@ + project_key@ + "/repos/"@ + repository_slug@ + "/files"@,
{
    let mut r = repository_path(project_key, repository_slug);
    r.append("/files");
    r
}

/// The path reading one file's contents, line-paginated.
pub fn repository_browse_path(project_key: &str, repository_slug: &str, path: &str) -> (r: String)
    ensures
        r@ == "rest/api/1.0/projects/"@ + project_key@ + "/repos/"@ + repository_slug@ + "/browse/"@
            + path@,
{
    let mut r = repository_path(project_key, repository_slug);
    r.append("/browse/");
    r.append(path);
    r
}

/// The fetched lines of a file joined by single newline separators.
pub open spec fn joined_lines(lines: Seq<Seq<char>>) -> Seq<char>
    decreases lines.len(),
{
    if lines.len() == 0 {
        Seq::empty()
    } else if lines.len() == 1 {
        lines[0]
    } else {
        joined_lines(lines.drop_last()) + "\n"@ + lines.last()
    }
}

/// Joins a file's fetched lines with newlines, yielding its contents.
pub fn join_lines(lines: &Vec<String>) -> (r: String)
    ensures
        r@ == joined_lines(lines@.map_values(|s: String| s@)),
{
    let ghost vs = lines@.map_values(|s: String| s@);
    let mut r = String::new();
    let mut i: usize = 0;
    while i < lines.len()
        invariant
            i <= lines@.len(),
            vs == lines@.map_values(|s: String| s@),
            vs.len() == lines@.len(),
            r@ == joined_lines(vs.take(i as int)),
        decreases lines@.len() - i,
    {
        if i > 0 {
            r.append("\n");
        }
        r.append(lines[i].as_str());
        proof {
            let taken = vs.take(i + 1);
            assert(taken.drop_last() =~= vs.take(i as int));
            assert(taken.last() == vs[i as int]);
            if i == 0 {
                assert(r@ =~= joined_lines(taken));
            } else {
                assert(joined_lines(taken) == joined_lines(vs.take(i as int)) + "\n"@
                    + vs[i as int]);
            }
        }
        i += 1;
    }
    proof {
        assert(vs.take(vs.len() as int) =~= vs);
    }
    r
}

} // verus!
