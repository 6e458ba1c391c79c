use vstd::prelude::*;
use vstd::string::StringExecFns;

verus! {

/// A group known to the server, identified by its name.
#[derive(Debug, PartialEq, Eq, Hash)]
pub struct Group {
    pub name: String,
}

impl Group {
    pub fn new(name: String) -> (r: Group)
        ensures
            r.name == name,
    {
        Group { name }
    }

    pub fn name(&self) -> (r: &str)
        ensures
            r@ == self.name@,
    {
        self.name.as_str()
    }
}

impl Clone for Group {
    fn clone(&self) -> (r: Self)
        ensures
            r == *self,
    {
        Group { name: self.name.clone() }
    }
}

/// The path listing every group with its details.
pub fn groups_admin_path() -> (r: String)
    ensures
        r@ == "rest/api/1.0/admin/groups"@,
{
    "rest/api/1.0/admin/groups".to_owned()
}

/// The path listing every group name.
pub fn groups_path() -> (r: String)
    ensures
        r@ == "rest/api/1.0/groups"@,
{
    "rest/api/1.0/groups".to_owned()
}

} // verus!
