//! A repository identity: the key of the event store.

use vstd::prelude::*;

verus! {

pub struct Repository {
    pub name: String,
    pub ssh: String,
    pub branch: String,
    pub owner: String,
}

pub ghost struct RepositoryView {
    pub name: Seq<char>,
    pub ssh: Seq<char>,
    pub branch: Seq<char>,
    pub owner: Seq<char>,
}

impl View for Repository {
    type V = RepositoryView;

    open spec fn view(&self) -> RepositoryView {
        RepositoryView {
            name: self.name@,
            ssh: self.ssh@,
            branch: self.branch@,
            owner: self.owner@,
        }
    }
}

impl Repository {
    pub fn new(name: String, ssh: String, branch: String, owner: String) -> (r: Self)
        ensures
            r@.name == name@,
            r@.ssh == ssh@,
            r@.branch == branch@,
            r@.owner == owner@,
    {
        Repository { name, ssh, branch, owner }
    }

    /// Whether two repositories are the same store key.
    pub fn same_key(&self, other: &Repository) -> (r: bool)
        ensures
            r == (self@ == other@),
    {
        let r = self.name == other.name && self.ssh == other.ssh && self.branch == other.branch
            && self.owner == other.owner;
        proof {
            if self.name@ == other.name@ && self.ssh@ == other.ssh@ && self.branch@
                == other.branch@ && self.owner@ == other.owner@ {
                assert(self@ == other@);
            }
        }
        r
    }
}

impl Clone for Repository {
    fn clone(&self) -> (r: Self)
        ensures
            r@ == self@,
    {
        Repository {
            name: self.name.clone(),
            ssh: self.ssh.clone(),
            branch: self.branch.clone(),
            owner: self.owner.clone(),
        }
    }
}

} // verus!
