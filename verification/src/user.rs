use vstd::prelude::*;
use vstd::string::StringExecFns;

verus! {

/// A user account as the server describes it.
#[derive(Debug, PartialEq, Eq, Hash)]
pub struct User {
    pub name: String,
    pub email_address: Option<String>,
    pub id: u64,
    pub display_name: String,
    pub active: bool,
    pub slug: String,
    pub _type: String,
}

impl User {
    pub fn new(
        name: String,
        email_address: Option<String>,
        id: u64,
        display_name: String,
        active: bool,
        slug: String,
        _type: String,
    ) -> (r: User)
        ensures
            r.name == name,
            r.email_address == email_address,
            r.id == id,
            r.display_name == display_name,
            r.active == active,
            r.slug == slug,
            r._type == _type,
    {
        User { name, email_address, id, display_name, active, slug, _type }
    }

    pub fn name(&self) -> (r: &str)
        ensures
            r@ == self.name@,
    {
        self.name.as_str()
    }
}

impl Clone for User {
    fn clone(&self) -> (r: Self)
        ensures
            r == *self,
    {
        User {
            name: self.name.clone(),
            email_address: match &self.email_address {
                Some(e) => Some(e.clone()),
                None => None,
            },
            id: self.id,
            display_name: self.display_name.clone(),
            active: self.active,
            slug: self.slug.clone(),
            _type: self._type.clone(),
        }
    }
}

/// The path listing every user with administrative detail.
pub fn users_admin_path() -> (r: String)
    ensures
        r@ == "rest/api/1.0/admin/users"@,
{
    "rest/api/1.0/admin/users".to_owned()
}

/// The path listing every user.
pub fn users_path() -> (r: String)
    ensures
        r@ == "rest/api/1.0/users"@,
{
    "rest/api/1.0/users".to_owned()
}

/// The path of one user, by slug.
pub fn user_path(user_slug: &str) -> (r: String)
    ensures
        r@ == "rest/api/1.0/users/"@ + user_slug@,
{
    let mut r = "rest/api/1.0/users/".to_owned();
    r.append(user_slug);
    r
}

} // verus!
