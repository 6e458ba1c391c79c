use vstd::prelude::*;
use vstd::string::StringExecFns;

verus! {

/// A project as the server describes it.
#[derive(Debug, PartialEq)]
pub struct Project {
    pub key: String,
    pub id: u64,
    pub name: String,
    pub description: Option<String>,
    pub public: bool,
    pub _type: String,
}

impl Project {
    pub fn new(
        key: String,
        id: u64,
        name: String,
        description: Option<String>,
        public: bool,
        _type: String,
    ) -> (r: Project)
        ensures
            r.key == key,
            r.id == id,
            r.name == name,
            r.description == description,
            r.public == public,
            r._type == _type,
    {
        Project { key, id, name, description, public, _type }
    }

    pub fn name(&self) -> (r: &str)
        ensures
            r@ == self.name@,
    {
        self.name.as_str()
    }

    pub fn key(&self) -> (r: &str)
        ensures
            r@ == self.key@,
    {
        self.key.as_str()
    }
}

impl Clone for Project {
    fn clone(&self) -> (r: Self)
        ensures
            r == *self,
    {
        Project {
            key: self.key.clone(),
            id: self.id,
            name: self.name.clone(),
            description: match &self.description {
                Some(d) => Some(d.clone()),
                None => None,
            },
            public: self.public,
            _type: self._type.clone(),
        }
    }
}

/// A bare reference to a project, as nested inside other records.
#[derive(Debug, PartialEq)]
pub struct ProjectRef {
    pub key: String,
}

impl ProjectRef {
    pub fn new(key: String) -> (r: ProjectRef)
        ensures
            r.key == key,
    {
        ProjectRef { key }
    }
}

impl Clone for ProjectRef {
    fn clone(&self) -> (r: Self)
        ensures
            r == *self,
    {
        ProjectRef { key: self.key.clone() }
    }
}

/// The path listing every project.
pub fn projects_path() -> (r: String)
    ensures
        r@ == "rest/api/1.0/projects"@,
{
    "rest/api/1.0/projects".to_owned()
}

/// The path of one project, by key.
pub fn project_path(project_key: &str) -> (r: String)
    ensures
        r@ == "rest/api/1.0/projects/"@ + project_key@,
{
    let mut r = "rest/api/1.0/projects/".to_owned();
    r.append(project_key);
    r
}

} // verus!
