//! The event store and the per-cell counter records.
//!
//! `DataAnalysis` holds the catalogs and, per repository, the fetched
//! commit and pull-request lists.  Insertion replaces any earlier entry for
//! the same repository; within a repository the fetched order is kept.

use vstd::prelude::*;

use crate::commit::Commit;
use crate::commit::CommitView;
use crate::commit::commit_views;
use crate::counting::CommitTotals;
use crate::counting::PullRequestTotals;
use crate::counting::commit_sum;
use crate::counting::commits_nonneg;
use crate::counting::ct_fits;
use crate::counting::ct_zero;
use crate::counting::lemma_commit_sum_take_le;
use crate::counting::lemma_commit_sum_take_succ;
use crate::counting::pt_zero;
use crate::pull_request::PullRequest;
use crate::pull_request::PullRequestView;
use crate::pull_request::pull_request_views;
use crate::repository::Repository;
use crate::repository::RepositoryView;
use crate::sprint::Sprint;
use crate::user::User;

verus! {

/// Per-repository commit lists, keyed by the repository identity; each key
/// occurs at most once.
pub type RepoCommits = Vec<(Repository, Vec<Commit>)>;

/// Per-repository pull-request lists, keyed the same way.
pub type RepoPullRequests = Vec<(Repository, Vec<PullRequest>)>;

/// All commits the store holds, in store order.
pub open spec fn stored_commits(s: Seq<(Repository, Vec<Commit>)>) -> Seq<CommitView>
    decreases s.len(),
{
    if s.len() == 0 {
        Seq::empty()
    } else {
        stored_commits(s.drop_last()) + commit_views(s.last().1@)
    }
}

/// All pull requests the store holds, in store order.
pub open spec fn stored_pull_requests(s: Seq<(Repository, Vec<PullRequest>)>) -> Seq<
    PullRequestView,
>
    decreases s.len(),
{
    if s.len() == 0 {
        Seq::empty()
    } else {
        stored_pull_requests(s.drop_last()) + pull_request_views(s.last().1@)
    }
}

/// No two entries carry the same repository key.
pub open spec fn unique_keys<T>(s: Seq<(Repository, Vec<T>)>) -> bool {
    forall|i: int, j: int|
        0 <= i < j < s.len() ==> (#[trigger] s[i]).0@ != (#[trigger] s[j]).0@
}

/// One entry was replaced or appended: the store `news` is the store `olds`
/// with the list under `key` now being `items`, every other entry as it was.
pub open spec fn upserted<T>(
    olds: Seq<(Repository, Vec<T>)>,
    news: Seq<(Repository, Vec<T>)>,
    key: RepositoryView,
    items: Seq<T>,
) -> bool {
    if exists|i: int| 0 <= i < olds.len() && (#[trigger] olds[i]).0@ == key {
        let i = choose|i: int| 0 <= i < olds.len() && (#[trigger] olds[i]).0@ == key;
        &&& news.len() == olds.len()
        &&& news[i].0@ == key
        &&& news[i].1@ == items
        &&& forall|j: int| 0 <= j < news.len() && j != i ==> news[j] == olds[j]
    } else {
        &&& news.len() == olds.len() + 1
        &&& news[olds.len() as int].0@ == key
        &&& news[olds.len() as int].1@ == items
        &&& forall|j: int| 0 <= j < olds.len() ==> news[j] == olds[j]
    }
}

/// The event store plus the catalogs the engine aggregates over.
pub struct DataAnalysis {
    pub users: Vec<User>,
    pub sprints: Vec<Sprint>,
    pub repos: Vec<Repository>,
    pub commits: RepoCommits,
    pub pull_requests: RepoPullRequests,
}

impl DataAnalysis {
    /// Each repository key occurs at most once in each store.
    pub open spec fn wf(self) -> bool {
        unique_keys(self.commits@) && unique_keys(self.pull_requests@)
    }

    /// All commits the store holds, in store order.
    pub open spec fn all_commits(self) -> Seq<CommitView> {
        stored_commits(self.commits@)
    }

    /// All pull requests the store holds, in store order.
    pub open spec fn all_pull_requests(self) -> Seq<PullRequestView> {
        stored_pull_requests(self.pull_requests@)
    }

    pub fn new(users: Vec<User>, sprints: Vec<Sprint>, repos: Vec<Repository>) -> (r: Self)
        ensures
            r.users == users,
            r.sprints == sprints,
            r.repos == repos,
            r.commits@.len() == 0,
            r.pull_requests@.len() == 0,
            r.wf(),
    {
        DataAnalysis { users, sprints, repos, commits: Vec::new(), pull_requests: Vec::new() }
    }

    /// Record a repository's commit list, replacing any earlier list for
    /// the same repository.
    pub fn insert_commits(&mut self, repository: &Repository, commits: Vec<Commit>)
        requires
            old(self).wf(),
        ensures
            final(self).wf(),
            final(self).users == old(self).users,
            final(self).sprints == old(self).sprints,
            final(self).repos == old(self).repos,
            final(self).pull_requests == old(self).pull_requests,
            upserted(old(self).commits@, final(self).commits@, repository@, commits@),
    {
        let ghost olds = self.commits@;
        let mut i: usize = 0;
        while i < self.commits.len()
            invariant
                i <= self.commits.len(),
                *self == *old(self),
                old(self).wf(),
                olds == self.commits@,
                unique_keys(olds),
                forall|k: int| 0 <= k < i ==> (#[trigger] olds[k]).0@ != repository@,
            decreases self.commits.len() - i,
        {
            if self.commits[i].0.same_key(repository) {
                self.commits.remove(i);
                self.commits.insert(i, (repository.clone(), commits));
                proof {
                    let news = self.commits@;
                    assert(news =~= olds.update(i as int, news[i as int]));
                    assert(olds[i as int].0@ == repository@);
                    let w = choose|w: int| 0 <= w < olds.len() && (#[trigger] olds[w]).0@
                        == repository@;
                    assert(w == i as int) by {
                        if w < i as int {
                            assert(olds[w].0@ != olds[i as int].0@);
                        } else if w > i as int {
                            assert(olds[i as int].0@ != olds[w].0@);
                        }
                    }
                    assert(unique_keys(news)) by {
                        assert forall|a: int, b: int| 0 <= a < b < news.len() implies (
                        #[trigger] news[a]).0@ != (#[trigger] news[b]).0@ by {
                            assert(olds[a].0@ != olds[b].0@);
                            assert(news[a].0@ == olds[a].0@ && news[b].0@ == olds[b].0@);
                        }
                    }
                }
                return ;
            }
            i = i + 1;
        }
        self.commits.push((repository.clone(), commits));
        proof {
            let news = self.commits@;
            assert(!(exists|w: int| 0 <= w < olds.len() && (#[trigger] olds[w]).0@
                == repository@));
            assert(unique_keys(news)) by {
                assert forall|a: int, b: int| 0 <= a < b < news.len() implies (
                #[trigger] news[a]).0@ != (#[trigger] news[b]).0@ by {
                    if b < olds.len() {
                        assert(olds[a].0@ != olds[b].0@);
                    } else {
                        assert(news[b].0@ == repository@ && news[a] == olds[a]);
                    }
                }
            }
        }
    }

    /// Record a repository's pull-request list, replacing any earlier list
    /// for the same repository.
    pub fn insert_pull_request(&mut self, repository: &Repository, pull_requests: Vec<PullRequest>)
        requires
            old(self).wf(),
        ensures
            final(self).wf(),
            final(self).users == old(self).users,
            final(self).sprints == old(self).sprints,
            final(self).repos == old(self).repos,
            final(self).commits == old(self).commits,
            upserted(
                old(self).pull_requests@,
                final(self).pull_requests@,
                repository@,
                pull_requests@,
            ),
    {
        let ghost olds = self.pull_requests@;
        let mut i: usize = 0;
        while i < self.pull_requests.len()
            invariant
                i <= self.pull_requests.len(),
                *self == *old(self),
                old(self).wf(),
                olds == self.pull_requests@,
                unique_keys(olds),
                forall|k: int| 0 <= k < i ==> (#[trigger] olds[k]).0@ != repository@,
            decreases self.pull_requests.len() - i,
        {
            if self.pull_requests[i].0.same_key(repository) {
                self.pull_requests.remove(i);
                self.pull_requests.insert(i, (repository.clone(), pull_requests));
                proof {
                    let news = self.pull_requests@;
                    assert(news =~= olds.update(i as int, news[i as int]));
                    assert(olds[i as int].0@ == repository@);
                    let w = choose|w: int| 0 <= w < olds.len() && (#[trigger] olds[w]).0@
                        == repository@;
                    assert(w == i as int) by {
                        if w < i as int {
                            assert(olds[w].0@ != olds[i as int].0@);
                        } else if w > i as int {
                            assert(olds[i as int].0@ != olds[w].0@);
                        }
                    }
                    assert(unique_keys(news)) by {
                        assert forall|a: int, b: int| 0 <= a < b < news.len() implies (
                        #[trigger] news[a]).0@ != (#[trigger] news[b]).0@ by {
                            assert(olds[a].0@ != olds[b].0@);
                            assert(news[a].0@ == olds[a].0@ && news[b].0@ == olds[b].0@);
                        }
                    }
                }
                return ;
            }
            i = i + 1;
        }
        self.pull_requests.push((repository.clone(), pull_requests));
        proof {
            let news = self.pull_requests@;
            assert(unique_keys(news)) by {
                assert forall|a: int, b: int| 0 <= a < b < news.len() implies (
                #[trigger] news[a]).0@ != (#[trigger] news[b]).0@ by {
                    if b < olds.len() {
                        assert(olds[a].0@ != olds[b].0@);
                    } else {
                        assert(news[b].0@ == repository@ && news[a] == olds[a]);
                    }
                }
            }
        }
    }
}

/// The commit counters of one user-sprint cell.
pub struct CommitAnalyzed {
    pub files_changed: usize,
    pub change_lines: usize,
    pub insertions: usize,
    pub deletions: usize,
    pub commits: usize,
}

impl View for CommitAnalyzed {
    type V = CommitTotals;

    open spec fn view(&self) -> CommitTotals {
        CommitTotals {
            files_changed: self.files_changed as int,
            change_lines: self.change_lines as int,
            insertions: self.insertions as int,
            deletions: self.deletions as int,
            commits: self.commits as int,
        }
    }
}

impl Clone for CommitAnalyzed {
    fn clone(&self) -> (r: Self)
        ensures
            r == *self,
    {
        CommitAnalyzed {
            files_changed: self.files_changed,
            change_lines: self.change_lines,
            insertions: self.insertions,
            deletions: self.deletions,
            commits: self.commits,
        }
    }
}

impl CommitAnalyzed {
    pub fn new(
        files_changed: usize,
        change_lines: usize,
        insertions: usize,
        deletions: usize,
        commits: usize,
    ) -> (r: Self)
        ensures
            r@.files_changed == files_changed as int,
            r@.change_lines == change_lines as int,
            r@.insertions == insertions as int,
            r@.deletions == deletions as int,
            r@.commits == commits as int,
    {
        CommitAnalyzed { files_changed, change_lines, insertions, deletions, commits }
    }

    pub fn default() -> (r: Self)
        ensures
            r@ == ct_zero(),
    {
        Self::new(0, 0, 0, 0, 0)
    }

    /// Fold a list of commits into one counter record: the sums of their
    /// diff statistics, their insertions plus deletions as changed lines,
    /// and their number.
    pub fn from_commits(commits: &Vec<Commit>) -> (r: Self)
        requires
            ct_fits(commit_sum(commit_views(commits@))),
        ensures
            r@ == commit_sum(commit_views(commits@)),
    {
        let ghost views = commit_views(commits@);
        proof {
            assert(commits_nonneg(views));
        }
        let mut acc = Self::default();
        let mut i: usize = 0;
        while i < commits.len()
            invariant
                i <= commits.len(),
                views == commit_views(commits@),
                ct_fits(commit_sum(views)),
                commits_nonneg(views),
                acc@ == commit_sum(views.take(i as int)),
            decreases commits.len() - i,
        {
            proof {
                lemma_commit_sum_take_succ(views, i as int);
                lemma_commit_sum_take_le(views, i as int + 1);
            }
            let c = &commits[i];
            acc.files_changed = acc.files_changed + c.files_changed;
            acc.insertions = acc.insertions + c.insertions;
            acc.deletions = acc.deletions + c.deletions;
            acc.change_lines = acc.change_lines + c.insertions + c.deletions;
            acc.commits = acc.commits + 1;
            i = i + 1;
        }
        proof {
            assert(views.take(commits@.len() as int) =~= views);
        }
        acc
    }
}

/// The pull-request counters of one user-sprint cell.
pub struct PullRequestAnalyzed {
    pub create_pull_requests: usize,
    pub merged_pull_requests: usize,
    pub closed_pull_requests: usize,
    pub received_discussions: usize,
    pub approver_assigned: usize,
    pub approver_conducted: usize,
    pub approver_added_discussions: usize,
}

impl View for PullRequestAnalyzed {
    type V = PullRequestTotals;

    open spec fn view(&self) -> PullRequestTotals {
        PullRequestTotals {
            create_pull_requests: self.create_pull_requests as int,
            merged_pull_requests: self.merged_pull_requests as int,
            closed_pull_requests: self.closed_pull_requests as int,
            received_discussions: self.received_discussions as int,
            approver_assigned: self.approver_assigned as int,
            approver_conducted: self.approver_conducted as int,
            approver_added_discussions: self.approver_added_discussions as int,
        }
    }
}

impl Clone for PullRequestAnalyzed {
    fn clone(&self) -> (r: Self)
        ensures
            r == *self,
    {
        PullRequestAnalyzed {
            create_pull_requests: self.create_pull_requests,
            merged_pull_requests: self.merged_pull_requests,
            closed_pull_requests: self.closed_pull_requests,
            received_discussions: self.received_discussions,
            approver_assigned: self.approver_assigned,
            approver_conducted: self.approver_conducted,
            approver_added_discussions: self.approver_added_discussions,
        }
    }
}

impl PullRequestAnalyzed {
    pub fn new(
        create_pull_requests: usize,
        merged_pull_requests: usize,
        closed_pull_requests: usize,
        received_discussions: usize,
        approver_assigned: usize,
        approver_conducted: usize,
        approver_added_discussions: usize,
    ) -> (r: Self)
        ensures
            r@.create_pull_requests == create_pull_requests as int,
            r@.merged_pull_requests == merged_pull_requests as int,
            r@.closed_pull_requests == closed_pull_requests as int,
            r@.received_discussions == received_discussions as int,
            r@.approver_assigned == approver_assigned as int,
            r@.approver_conducted == approver_conducted as int,
            r@.approver_added_discussions == approver_added_discussions as int,
    {
        PullRequestAnalyzed {
            create_pull_requests,
            merged_pull_requests,
            closed_pull_requests,
            received_discussions,
            approver_assigned,
            approver_conducted,
            approver_added_discussions,
        }
    }

    pub fn default() -> (r: Self)
        ensures
            r@ == pt_zero(),
    {
        Self::new(0, 0, 0, 0, 0, 0, 0)
    }
}

/// One user-sprint cell: commit counters and pull-request counters.
pub struct UserDataAnalyzed {
    pub commits: CommitAnalyzed,
    pub pull_requests: PullRequestAnalyzed,
}

/// The cell's counters as unbounded integers.
pub ghost struct UserTotals {
    pub commits: CommitTotals,
    pub pull_requests: PullRequestTotals,
}

impl View for UserDataAnalyzed {
    type V = UserTotals;

    open spec fn view(&self) -> UserTotals {
        UserTotals { commits: self.commits@, pull_requests: self.pull_requests@ }
    }
}

impl Clone for UserDataAnalyzed {
    fn clone(&self) -> (r: Self)
        ensures
            r == *self,
    {
        UserDataAnalyzed { commits: self.commits.clone(), pull_requests: self.pull_requests.clone() }
    }
}

impl UserDataAnalyzed {
    pub fn new(commits: CommitAnalyzed, pull_requests: PullRequestAnalyzed) -> (r: Self)
        ensures
            r@.commits == commits@,
            r@.pull_requests == pull_requests@,
    {
        UserDataAnalyzed { commits, pull_requests }
    }
}

} // verus!
