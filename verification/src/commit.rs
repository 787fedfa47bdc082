//! One historical change read from a repository's history.

use vstd::prelude::*;

verus! {

/// A commit with its diff statistics.  `datetime` is the author instant in
/// nanoseconds since the Unix epoch.
pub struct Commit {
    pub email: String,
    pub message: String,
    pub files_changed: usize,
    pub insertions: usize,
    pub deletions: usize,
    pub datetime: i64,
}

pub ghost struct CommitView {
    pub email: Seq<char>,
    pub message: Seq<char>,
    pub files_changed: int,
    pub insertions: int,
    pub deletions: int,
    pub datetime: int,
}

impl View for Commit {
    type V = CommitView;

    open spec fn view(&self) -> CommitView {
        CommitView {
            email: self.email@,
            message: self.message@,
            files_changed: self.files_changed as int,
            insertions: self.insertions as int,
            deletions: self.deletions as int,
            datetime: self.datetime as int,
        }
    }
}

impl Commit {
    pub fn new(
        email: String,
        message: String,
        files_changed: usize,
        insertions: usize,
        deletions: usize,
        datetime: i64,
    ) -> (r: Self)
        ensures
            r@.email == email@,
            r@.message == message@,
            r@.files_changed == files_changed as int,
            r@.insertions == insertions as int,
            r@.deletions == deletions as int,
            r@.datetime == datetime as int,
    {
        Commit { email, message, files_changed, insertions, deletions, datetime }
    }
}

impl Clone for Commit {
    fn clone(&self) -> (r: Self)
        ensures
            r@ == self@,
    {
        Commit {
            email: self.email.clone(),
            message: self.message.clone(),
            files_changed: self.files_changed,
            insertions: self.insertions,
            deletions: self.deletions,
            datetime: self.datetime,
        }
    }
}

/// The views of a list of commits.
pub open spec fn commit_views(cs: Seq<Commit>) -> Seq<CommitView> {
    cs.map_values(|c: Commit| c@)
}

} // verus!
