//! A tracked identity: one person, several email aliases.

use vstd::prelude::*;

verus! {

pub struct User {
    pub username: String,
    pub avatar_url: String,
    pub role: String,
    pub teams: Vec<String>,
    pub emails: Vec<String>,
}

pub ghost struct UserView {
    pub username: Seq<char>,
    pub avatar_url: Seq<char>,
    pub role: Seq<char>,
    pub teams: Seq<Seq<char>>,
    pub emails: Seq<Seq<char>>,
}

/// The views of a list of strings.
pub open spec fn str_views(v: Seq<String>) -> Seq<Seq<char>> {
    v.map_values(|s: String| s@)
}

impl View for User {
    type V = UserView;

    open spec fn view(&self) -> UserView {
        UserView {
            username: self.username@,
            avatar_url: self.avatar_url@,
            role: self.role@,
            teams: str_views(self.teams@),
            emails: str_views(self.emails@),
        }
    }
}

impl User {
    pub fn new(
        username: String,
        avatar_url: String,
        role: String,
        teams: Vec<String>,
        emails: Vec<String>,
    ) -> (r: Self)
        ensures
            r@.username == username@,
            r@.avatar_url == avatar_url@,
            r@.role == role@,
            r@.teams == str_views(teams@),
            r@.emails == str_views(emails@),
    {
        User { username, avatar_url, role, teams, emails }
    }
}

impl Clone for User {
    fn clone(&self) -> (r: Self)
        ensures
            r@ == self@,
    {
        User {
            username: self.username.clone(),
            avatar_url: self.avatar_url.clone(),
            role: self.role.clone(),
            teams: clone_strings(&self.teams),
            emails: clone_strings(&self.emails),
        }
    }
}

/// Clone a list of strings, keeping its view.
pub fn clone_strings(v: &Vec<String>) -> (r: Vec<String>)
    ensures
        str_views(r@) == str_views(v@),
{
    let mut r: Vec<String> = Vec::new();
    let mut i: usize = 0;
    while i < v.len()
        invariant
            i <= v.len(),
            r@.len() == i,
            forall|k: int| 0 <= k < i ==> r@[k]@ == v@[k]@,
        decreases v.len() - i,
    {
        r.push(v[i].clone());
        i = i + 1;
    }
    proof {
        assert(str_views(r@) =~= str_views(v@));
    }
    r
}

/// Whether a list of strings holds the given text.
pub fn contains_str(v: &Vec<String>, s: &String) -> (r: bool)
    ensures
        r == str_views(v@).contains(s@),
{
    let mut i: usize = 0;
    while i < v.len()
        invariant
            i <= v.len(),
            forall|k: int| 0 <= k < i ==> v@[k]@ != s@,
        decreases v.len() - i,
    {
        if v[i] == *s {
            proof {
                assert(str_views(v@)[i as int] == s@);
            }
            return true;
        }
        i = i + 1;
    }
    proof {
        assert forall|k: int| 0 <= k < str_views(v@).len() implies str_views(v@)[k] != s@ by {
            assert(v@[k]@ != s@);
        }
    }
    false
}

} // verus!
