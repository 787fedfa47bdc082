//! The report shape a sink renders: one section per sprint, one column per
//! user, the counters as plain numbers.

use vstd::prelude::*;

use crate::sprint::Sprint;
use crate::user::User;

verus! {

pub struct Report {
    pub sprints: Vec<SprintReport>,
}

pub struct SprintReport {
    pub sprint: Sprint,
    pub users: Vec<UserReport>,
}

pub struct UserReport {
    pub user: User,
    pub commits: CommitReport,
    pub pull_requests: PullRequestReport,
}

pub struct CommitReport {
    pub files_changed: usize,
    pub change_lines: usize,
    pub insertions: usize,
    pub deletions: usize,
    pub commits: usize,
}

pub struct PullRequestReport {
    pub create_pull_requests: usize,
    pub merged_pull_requests: usize,
    pub closed_pull_requests: usize,
    pub got_discussions: usize,
    pub approver_assigned: usize,
    pub approver_conducted: usize,
    pub approver_added_discussions: usize,
}

} // verus!
