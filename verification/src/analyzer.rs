//! The attribution and windowing engine.
//!
//! For every (sprint, user) pair the engine scans all repositories' events
//! once and folds the matching ones into the cell's counters.  The result
//! is pinned, cell by cell, to the folds of `crate::counting`.

use vstd::prelude::*;

use crate::analysis::CommitAnalyzed;
use crate::analysis::DataAnalysis;
use crate::analysis::PullRequestAnalyzed;
use crate::analysis::UserDataAnalyzed;
use crate::analysis::UserTotals;
use crate::analysis::stored_commits;
use crate::analysis::stored_pull_requests;
use crate::commit::Commit;
use crate::commit::CommitView;
use crate::commit::commit_views;
use crate::counting::author_metrics;
use crate::counting::author_sel_pred;
use crate::counting::closed_pred;
use crate::counting::comments_nonneg;
use crate::counting::commit_metrics;
use crate::counting::commit_sum;
use crate::counting::commits_nonneg;
use crate::counting::ct_fits;
use crate::counting::lemma_author_metrics_via_filter;
use crate::counting::lemma_comments_nonneg_take;
use crate::counting::lemma_commit_metrics_filter;
use crate::counting::lemma_commit_metrics_le_sum;
use crate::counting::lemma_request_received_bounds;
use crate::counting::lemma_request_received_take_le;
use crate::counting::lemma_request_received_take_succ;
use crate::counting::lemma_review_metrics_bounds;
use crate::counting::lemma_review_metrics_take_le;
use crate::counting::lemma_review_metrics_take_succ;
use crate::counting::lemma_review_metrics_via_filter;
use crate::counting::lemma_total_comment_sum_filter_le;
use crate::counting::lemma_total_comment_sum_take_le;
use crate::counting::lemma_total_comment_sum_take_succ;
use crate::counting::request_received_metrics;
use crate::counting::review_metrics;
use crate::counting::selected_pred;
use crate::counting::total_comment_sum;
use crate::counting::lemma_matching_comment_sum_take_le;
use crate::counting::lemma_matching_comment_sum_take_succ;
use crate::counting::lemma_matching_le_review_sum;
use crate::counting::lemma_review_comment_sum_take_le;
use crate::counting::lemma_review_comment_sum_take_succ;
use crate::counting::lemma_review_flags_push;
use crate::counting::matching_comment_sum;
use crate::counting::pt_add;
use crate::counting::pull_request_metrics;
use crate::counting::received_delta;
use crate::counting::request_window_delta;
use crate::counting::review_comment_sum;
use crate::counting::review_delta;
use crate::counting::reviewer_matches;
use crate::counting::has_assigned_review;
use crate::counting::has_conducted_review;
use crate::pull_request::PullRequest;
use crate::pull_request::PullRequestInfo;
use crate::pull_request::PullRequestView;
use crate::pull_request::ReviewState;
use crate::pull_request::Reviewer;
use crate::pull_request::check_request_times;
use crate::pull_request::invalid_time_of;
use crate::pull_request::pr_times_valid;
use crate::pull_request::pull_request_views;
use crate::pull_request::review_views;
use crate::repository::Repository;
use crate::sprint::Sprint;
use crate::sprint::SprintView;
use crate::timestamp::InvalidTimestamp;
use crate::timestamp::opt_str_view;
use crate::timestamp::opt_ts_in_window;
use crate::timestamp::opt_ts_valid;
use crate::timestamp::parse_rfc3339;
use crate::timestamp::ts_str_in_window;
use crate::timestamp::ts_str_valid;
use crate::user::User;
use crate::user::UserView;
use crate::user::contains_str;

verus! {

/// The engine's output: one row per configured sprint, in input order.
pub type SprintsAnalyzed = Vec<(Sprint, UsersAnalyzed)>;

/// One sprint's row: one cell per configured user, in input order.
pub type UsersAnalyzed = Vec<(User, UserDataAnalyzed)>;

/// One user-sprint cell of the output, as the model states it.
pub open spec fn cell_metrics(
    cs: Seq<CommitView>,
    ps: Seq<PullRequestView>,
    u: UserView,
    s: SprintView,
) -> UserTotals {
    UserTotals { commits: commit_metrics(cs, u, s), pull_requests: pull_request_metrics(ps, u, s) }
}

/// Whether a pull request's optional timestamp lies inside the sprint
/// window.  An absent timestamp never does; a present one that denotes no
/// instant is a fatal condition and is handed back rather than coerced to
/// "not in the sprint".
pub fn datetime_include_sprint(datetime: &Option<String>, sprint: &Sprint) -> (r: Result<
    bool,
    InvalidTimestamp,
>)
    ensures
        match r {
            Ok(b) => opt_ts_valid(opt_str_view(*datetime)) && b == opt_ts_in_window(
                opt_str_view(*datetime),
                sprint@.since,
                sprint@.until,
            ),
            Err(e) => !opt_ts_valid(opt_str_view(*datetime)) && opt_str_view(*datetime) == Some(
                e.timestamp@,
            ),
        },
{
    match datetime {
        None => Ok(false),
        Some(text) => match parse_rfc3339(text.as_str()) {
            Some(n) => Ok(sprint.since <= n && n <= sprint.until),
            None => Err(InvalidTimestamp::new(text.clone())),
        },
    }
}

/// Window test for an optional timestamp already known to be valid.
fn include_checked(datetime: &Option<String>, sprint: &Sprint) -> (r: bool)
    requires
        opt_ts_valid(opt_str_view(*datetime)),
    ensures
        r == opt_ts_in_window(opt_str_view(*datetime), sprint@.since, sprint@.until),
{
    match datetime {
        None => false,
        Some(text) => match parse_rfc3339(text.as_str()) {
            Some(n) => sprint.since <= n && n <= sprint.until,
            None => vstd::pervasive::unreached(),
        },
    }
}

/// Window test for a present timestamp already known to be valid.
fn include_str_checked(text: &String, sprint: &Sprint) -> (r: bool)
    requires
        ts_str_valid(text@),
    ensures
        r == ts_str_in_window(text@, sprint@.since, sprint@.until),
{
    match parse_rfc3339(text.as_str()) {
        Some(n) => sprint.since <= n && n <= sprint.until,
        None => vstd::pervasive::unreached(),
    }
}

impl PullRequestAnalyzed {
    /// Fold one request of this cell's user into the created/merged/closed
    /// counters: created counts when the creation instant is inside the
    /// window; merged counts when merge and close instants are both inside;
    /// closed counts when the close instant is inside and the merge instant
    /// is not.
    pub fn analyze_request(&mut self, pull_request: &PullRequestInfo, sprint: &Sprint)
        requires
            pr_times_valid(pull_request@),
            old(self)@.create_pull_requests < usize::MAX as int,
            old(self)@.merged_pull_requests < usize::MAX as int,
            old(self)@.closed_pull_requests < usize::MAX as int,
        ensures
            final(self)@ == pt_add(old(self)@, request_window_delta(pull_request@, sprint@)),
    {
        if include_str_checked(&pull_request.created_at, sprint) {
            self.create_pull_requests = self.create_pull_requests + 1;
        }
        let merged_in = include_checked(&pull_request.merged_at, sprint);
        let closed_in = include_checked(&pull_request.closed_at, sprint);
        if merged_in && closed_in {
            self.merged_pull_requests = self.merged_pull_requests + 1;
        }
        if !merged_in && closed_in {
            self.closed_pull_requests = self.closed_pull_requests + 1;
        }
    }

    /// Fold one closed request of this cell's user into the received
    /// discussions: the comments of all its reviews, whoever wrote them,
    /// when the request was closed inside the window.
    pub fn analyze_received_discussion(&mut self, pull_request: &PullRequest, sprint: &Sprint)
        requires
            opt_ts_valid(pull_request@.request.closed_at),
            old(self)@.received_discussions + review_comment_sum(pull_request@.reviews)
                <= usize::MAX as int,
        ensures
            final(self)@ == pt_add(old(self)@, received_delta(pull_request@, sprint@)),
    {
        let ghost rviews = pull_request@.reviews;
        proof {
            assert(forall|k: int| 0 <= k < rviews.len() ==> (#[trigger] rviews[k]).comments_count
                >= 0);
        }
        if include_checked(&pull_request.request.closed_at, sprint) {
            let reviews = &pull_request.reviews;
            let mut i: usize = 0;
            while i < reviews.len()
                invariant
                    i <= reviews.len(),
                    rviews == review_views(reviews@),
                    forall|k: int| 0 <= k < rviews.len() ==> (#[trigger] rviews[k]).comments_count
                        >= 0,
                    old(self)@.received_discussions + review_comment_sum(rviews)
                        <= usize::MAX as int,
                    self.received_discussions as int == old(self)@.received_discussions
                        + review_comment_sum(rviews.take(i as int)),
                    self.create_pull_requests == old(self).create_pull_requests,
                    self.merged_pull_requests == old(self).merged_pull_requests,
                    self.closed_pull_requests == old(self).closed_pull_requests,
                    self.approver_assigned == old(self).approver_assigned,
                    self.approver_conducted == old(self).approver_conducted,
                    self.approver_added_discussions == old(self).approver_added_discussions,
                decreases reviews.len() - i,
            {
                proof {
                    lemma_review_comment_sum_take_succ(rviews, i as int);
                    lemma_review_comment_sum_take_le(rviews, i as int + 1);
                    assert(rviews[i as int] == reviews@[i as int]@);
                }
                self.received_discussions = self.received_discussions + reviews[i].comments_count;
                i = i + 1;
            }
            proof {
                assert(rviews.take(reviews@.len() as int) =~= rviews);
            }
        }
    }

    /// Fold one closed pull request into the review side of this cell:
    /// whether the user reviewed it at all, whether one of the user's
    /// reviews approved it or requested changes, and how many comments the
    /// user's reviews added.  A request closed outside the window adds
    /// nothing.
    pub fn analyze_reviews(&mut self, pull_request: &PullRequest, sprint: &Sprint, user: &User)
        requires
            opt_ts_valid(pull_request@.request.closed_at),
            old(self)@.approver_assigned < usize::MAX as int,
            old(self)@.approver_conducted < usize::MAX as int,
            old(self)@.approver_added_discussions + matching_comment_sum(
                pull_request@.reviews,
                user@,
            ) <= usize::MAX as int,
        ensures
            final(self)@ == pt_add(old(self)@, review_delta(pull_request@, user@, sprint@)),
    {
        let ghost rviews = pull_request@.reviews;
        proof {
            assert(forall|k: int| 0 <= k < rviews.len() ==> (#[trigger] rviews[k]).comments_count
                >= 0);
            lemma_matching_le_review_sum(rviews, user@);
        }
        let mut assigned = false;
        let mut conducted = false;
        let mut added_discussions: usize = 0;
        if include_checked(&pull_request.request.closed_at, sprint) {
            let reviews = &pull_request.reviews;
            let mut i: usize = 0;
            while i < reviews.len()
                invariant
                    i <= reviews.len(),
                    rviews == review_views(reviews@),
                    forall|k: int| 0 <= k < rviews.len() ==> (#[trigger] rviews[k]).comments_count
                        >= 0,
                    old(self)@.approver_added_discussions + matching_comment_sum(rviews, user@)
                        <= usize::MAX as int,
                    assigned == has_assigned_review(rviews.take(i as int), user@),
                    conducted == has_conducted_review(rviews.take(i as int), user@),
                    added_discussions as int == matching_comment_sum(rviews.take(i as int), user@),
                    *self == *old(self),
                decreases reviews.len() - i,
            {
                proof {
                    assert(rviews.take(i as int + 1) =~= rviews.take(i as int).push(
                        rviews[i as int],
                    ));
                    lemma_review_flags_push(rviews.take(i as int), rviews[i as int], user@);
                    lemma_matching_comment_sum_take_succ(rviews, user@, i as int);
                    lemma_matching_comment_sum_take_le(rviews, user@, i as int + 1);
                    lemma_matching_le_review_sum(rviews, user@);
                    assert(rviews[i as int] == reviews@[i as int]@);
                }
                let review = &reviews[i];
                match &review.user {
                    Reviewer::Identified(email) => {
                        if contains_str(&user.emails, email) {
                            proof {
                                assert(reviewer_matches(rviews[i as int], user@));
                            }
                            assigned = true;
                            match review.state {
                                ReviewState::Approved => {
                                    conducted = true;
                                },
                                ReviewState::Pending => {},
                                ReviewState::Comment => {},
                                ReviewState::RequestChanges => {
                                    conducted = true;
                                },
                                ReviewState::RequestReview => {},
                                ReviewState::Unknown => {},
                            }
                            added_discussions = added_discussions + review.comments_count;
                        } else {
                            proof {
                                assert(!reviewer_matches(rviews[i as int], user@));
                            }
                        }
                    },
                    Reviewer::Anonymous => {
                        proof {
                            assert(!reviewer_matches(rviews[i as int], user@));
                        }
                    },
                }
                i = i + 1;
            }
            proof {
                assert(rviews.take(reviews@.len() as int) =~= rviews);
            }
        }
        self.approver_assigned = self.approver_assigned + if assigned {
            1
        } else {
            0
        };
        self.approver_conducted = self.approver_conducted + if conducted {
            1
        } else {
            0
        };
        self.approver_added_discussions = self.approver_added_discussions + added_discussions;
    }
}

/// Every stored commit carries non-negative statistics: they come from
/// machine counters.
pub proof fn lemma_stored_commits_nonneg(s: Seq<(Repository, Vec<Commit>)>)
    ensures
        commits_nonneg(stored_commits(s)),
    decreases s.len(),
{
    if s.len() > 0 {
        lemma_stored_commits_nonneg(s.drop_last());
        let a = stored_commits(s.drop_last());
        let b = commit_views(s.last().1@);
        assert forall|i: int| 0 <= i < (a + b).len() implies (#[trigger] (a + b)[i]).files_changed
            >= 0 && (a + b)[i].insertions >= 0 && (a + b)[i].deletions >= 0 by {
            if i < a.len() {
                assert((a + b)[i] == a[i]);
            } else {
                assert((a + b)[i] == s.last().1@[i - a.len()]@);
            }
        }
    }
}

/// Every stored review carries a non-negative comment count.
pub proof fn lemma_stored_comments_nonneg(s: Seq<(Repository, Vec<PullRequest>)>)
    ensures
        comments_nonneg(stored_pull_requests(s)),
    decreases s.len(),
{
    if s.len() > 0 {
        lemma_stored_comments_nonneg(s.drop_last());
        let a = stored_pull_requests(s.drop_last());
        let b = pull_request_views(s.last().1@);
        assert forall|i: int, j: int|
            0 <= i < (a + b).len() && 0 <= j < (a + b)[i].reviews.len() implies (#[trigger] (a
            + b)[i].reviews[j]).comments_count >= 0 by {
            if i < a.len() {
                assert((a + b)[i] == a[i]);
            } else {
                assert((a + b)[i] == s.last().1@[i - a.len()]@);
            }
        }
    }
}

/// Every timestamp of every stored pull request denotes an instant.
pub open spec fn store_times_valid(s: Seq<(Repository, Vec<PullRequest>)>) -> bool {
    forall|i: int, j: int|
        0 <= i < s.len() && 0 <= j < s[i].1@.len() ==> pr_times_valid(
            (#[trigger] s[i].1@[j])@.request,
        )
}

/// Some stored pull request carries the present timestamp `t`, and `t`
/// denotes no instant.
pub open spec fn store_has_invalid(s: Seq<(Repository, Vec<PullRequest>)>, t: Seq<char>) -> bool {
    exists|i: int, j: int|
        0 <= i < s.len() && 0 <= j < s[i].1@.len() && invalid_time_of(
            (#[trigger] s[i].1@[j])@.request,
            t,
        )
}

impl DataAnalysis {
    /// The aggregate totals fit the machine's counters: what any run that
    /// holds its events in memory already satisfies.
    pub open spec fn fits(self) -> bool {
        &&& ct_fits(commit_sum(self.all_commits()))
        &&& total_comment_sum(self.all_pull_requests()) <= usize::MAX as int
    }

    /// The aggregation output is correct: one row per sprint in input
    /// order; in each row one cell per user in input order; each cell's
    /// counters are exactly the model's folds over all stored events.
    pub open spec fn output_ok(self, res: Seq<(Sprint, UsersAnalyzed)>) -> bool {
        &&& res.len() == self.sprints@.len()
        &&& forall|i: int| 0 <= i < res.len() ==> (#[trigger] res[i]).0@ == self.sprints@[i]@
        &&& forall|i: int| 0 <= i < res.len() ==> (#[trigger] res[i]).1@.len() == self.users@.len()
        &&& forall|i: int, j: int|
            0 <= i < res.len() && 0 <= j < self.users@.len() ==> (#[trigger] res[i].1@[j]).0@
                == self.users@[j]@ && res[i].1@[j].1@ == cell_metrics(
                self.all_commits(),
                self.all_pull_requests(),
                self.users@[j]@,
                self.sprints@[i]@,
            )
    }

    /// Check every stored pull request's timestamps, handing back a piece
    /// of text that denotes no instant if there is one.
    fn check_store_times(&self) -> (r: Result<(), InvalidTimestamp>)
        ensures
            match r {
                Ok(()) => store_times_valid(self.pull_requests@),
                Err(e) => !store_times_valid(self.pull_requests@) && store_has_invalid(
                    self.pull_requests@,
                    e.timestamp@,
                ),
            },
    {
        let ghost s = self.pull_requests@;
        let mut i: usize = 0;
        while i < self.pull_requests.len()
            invariant
                i <= self.pull_requests.len(),
                s == self.pull_requests@,
                forall|a: int, b: int|
                    0 <= a < i && 0 <= b < s[a].1@.len() ==> pr_times_valid(
                        (#[trigger] s[a].1@[b])@.request,
                    ),
            decreases self.pull_requests.len() - i,
        {
            let entry = &self.pull_requests[i].1;
            let mut j: usize = 0;
            while j < entry.len()
                invariant
                    i < self.pull_requests.len(),
                    j <= entry.len(),
                    s == self.pull_requests@,
                    entry@ == s[i as int].1@,
                    forall|a: int, b: int|
                        0 <= a < i && 0 <= b < s[a].1@.len() ==> pr_times_valid(
                            (#[trigger] s[a].1@[b])@.request,
                        ),
                    forall|b: int|
                        0 <= b < j ==> pr_times_valid((#[trigger] s[i as int].1@[b])@.request),
                decreases entry.len() - j,
            {
                if let Err(e) = check_request_times(&entry[j].request) {
                    proof {
                        assert(invalid_time_of(s[i as int].1@[j as int]@.request, e.timestamp@));
                        assert(!pr_times_valid(s[i as int].1@[j as int]@.request));
                    }
                    return Err(e);
                }
                j = j + 1;
            }
            i = i + 1;
        }
        Ok(())
    }

    /// The commits, across all repositories, that belong to the user-sprint
    /// cell, in store order.
    pub fn commits_from_user_in_sprint(&self, user: &User, sprint: &Sprint) -> (r: Vec<Commit>)
        ensures
            commit_views(r@) == self.all_commits().filter(selected_pred(user@, sprint@)),
    {
        broadcast use vstd::seq_lib::group_filter_ensures;

        let ghost pred = selected_pred(user@, sprint@);
        let mut r: Vec<Commit> = Vec::new();
        let mut i: usize = 0;
        while i < self.commits.len()
            invariant
                i <= self.commits.len(),
                pred == selected_pred(user@, sprint@),
                commit_views(r@) == stored_commits(self.commits@.take(i as int)).filter(pred),
            decreases self.commits.len() - i,
        {
            let entry = &self.commits[i].1;
            let mut j: usize = 0;
            while j < entry.len()
                invariant
                    i < self.commits.len(),
                    j <= entry.len(),
                    pred == selected_pred(user@, sprint@),
                    entry@ == self.commits@[i as int].1@,
                    commit_views(r@) == stored_commits(self.commits@.take(i as int)).filter(pred)
                        + commit_views(entry@).take(j as int).filter(pred),
                decreases entry.len() - j,
            {
                let c = &entry[j];
                let keep = contains_str(&user.emails, &c.email) && sprint.since <= c.datetime
                    && c.datetime <= sprint.until;
                proof {
                    assert(commit_views(entry@).take(j as int + 1) =~= commit_views(entry@).take(
                        j as int,
                    ).push(entry@[j as int]@));
                    commit_views(entry@).take(j as int).lemma_filter_push(entry@[j as int]@, pred);
                    assert(keep == pred(entry@[j as int]@));
                }
                if keep {
                    r.push(c.clone());
                    proof {
                        let af = stored_commits(self.commits@.take(i as int)).filter(pred);
                        let bf = commit_views(entry@).take(j as int).filter(pred);
                        assert(commit_views(r@) =~= (af + bf).push(entry@[j as int]@));
                        assert((af + bf).push(entry@[j as int]@) =~= af + bf.push(
                            entry@[j as int]@,
                        ));
                    }
                }
                j = j + 1;
            }
            proof {
                assert(commit_views(entry@).take(entry@.len() as int) =~= commit_views(entry@));
                assert(self.commits@.take(i as int + 1).drop_last() =~= self.commits@.take(
                    i as int,
                ));
                assert(stored_commits(self.commits@.take(i as int + 1)) == stored_commits(
                    self.commits@.take(i as int),
                ) + commit_views(entry@));
                assert((stored_commits(self.commits@.take(i as int)) + commit_views(
                    entry@,
                )).filter(pred) == stored_commits(self.commits@.take(i as int)).filter(pred)
                    + commit_views(entry@).filter(pred));
            }
            i = i + 1;
        }
        proof {
            assert(self.commits@.take(self.commits@.len() as int) =~= self.commits@);
        }
        r
    }

    /// The pull requests authored under one of the user's aliases whose
    /// created, merged or closed instant lies inside the sprint window, in
    /// store order.
    pub fn pull_requests_from_user_in_sprint(&self, user: &User, sprint: &Sprint) -> (r: Vec<
        PullRequest,
    >)
        requires
            store_times_valid(self.pull_requests@),
        ensures
            pull_request_views(r@) == self.all_pull_requests().filter(
                author_sel_pred(user@, sprint@),
            ),
            forall|k: int| 0 <= k < r@.len() ==> pr_times_valid((#[trigger] r@[k])@.request),
    {
        broadcast use vstd::seq_lib::group_filter_ensures;

        let ghost pred = author_sel_pred(user@, sprint@);
        let mut r: Vec<PullRequest> = Vec::new();
        let mut i: usize = 0;
        while i < self.pull_requests.len()
            invariant
                i <= self.pull_requests.len(),
                pred == author_sel_pred(user@, sprint@),
                store_times_valid(self.pull_requests@),
                pull_request_views(r@) == stored_pull_requests(
                    self.pull_requests@.take(i as int),
                ).filter(pred),
                forall|k: int| 0 <= k < r@.len() ==> pr_times_valid((#[trigger] r@[k])@.request),
            decreases self.pull_requests.len() - i,
        {
            let entry = &self.pull_requests[i].1;
            let mut j: usize = 0;
            while j < entry.len()
                invariant
                    i < self.pull_requests.len(),
                    j <= entry.len(),
                    pred == author_sel_pred(user@, sprint@),
                    store_times_valid(self.pull_requests@),
                    entry@ == self.pull_requests@[i as int].1@,
                    pull_request_views(r@) == stored_pull_requests(
                        self.pull_requests@.take(i as int),
                    ).filter(pred) + pull_request_views(entry@).take(j as int).filter(pred),
                    forall|k: int|
                        0 <= k < r@.len() ==> pr_times_valid((#[trigger] r@[k])@.request),
                decreases entry.len() - j,
            {
                let p = &entry[j];
                proof {
                    assert(pr_times_valid(self.pull_requests@[i as int].1@[j as int]@.request));
                }
                let keep = contains_str(&user.emails, &p.request.author_email) && (
                include_str_checked(&p.request.created_at, sprint) || include_checked(
                    &p.request.merged_at,
                    sprint,
                ) || include_checked(&p.request.closed_at, sprint));
                proof {
                    assert(pull_request_views(entry@).take(j as int + 1) =~= pull_request_views(
                        entry@,
                    ).take(j as int).push(entry@[j as int]@));
                    pull_request_views(entry@).take(j as int).lemma_filter_push(
                        entry@[j as int]@,
                        pred,
                    );
                    assert(keep == pred(entry@[j as int]@));
                }
                if keep {
                    r.push(p.clone());
                    proof {
                        let af = stored_pull_requests(self.pull_requests@.take(i as int)).filter(
                            pred,
                        );
                        let bf = pull_request_views(entry@).take(j as int).filter(pred);
                        assert(pull_request_views(r@) =~= (af + bf).push(entry@[j as int]@));
                        assert((af + bf).push(entry@[j as int]@) =~= af + bf.push(
                            entry@[j as int]@,
                        ));
                    }
                }
                j = j + 1;
            }
            proof {
                assert(pull_request_views(entry@).take(entry@.len() as int)
                    =~= pull_request_views(entry@));
                assert(self.pull_requests@.take(i as int + 1).drop_last()
                    =~= self.pull_requests@.take(i as int));
                assert(stored_pull_requests(self.pull_requests@.take(i as int + 1))
                    == stored_pull_requests(self.pull_requests@.take(i as int))
                    + pull_request_views(entry@));
                assert((stored_pull_requests(self.pull_requests@.take(i as int))
                    + pull_request_views(entry@)).filter(pred) == stored_pull_requests(
                    self.pull_requests@.take(i as int),
                ).filter(pred) + pull_request_views(entry@).filter(pred));
            }
            i = i + 1;
        }
        proof {
            assert(self.pull_requests@.take(self.pull_requests@.len() as int)
                =~= self.pull_requests@);
        }
        r
    }

    /// The pull requests, whoever authored them, whose close instant lies
    /// inside the sprint window, in store order.
    pub fn pull_requests_closed_in_sprint(&self, sprint: &Sprint) -> (r: Vec<PullRequest>)
        requires
            store_times_valid(self.pull_requests@),
        ensures
            pull_request_views(r@) == self.all_pull_requests().filter(closed_pred(sprint@)),
            forall|k: int| 0 <= k < r@.len() ==> pr_times_valid((#[trigger] r@[k])@.request),
    {
        broadcast use vstd::seq_lib::group_filter_ensures;

        let ghost pred = closed_pred(sprint@);
        let mut r: Vec<PullRequest> = Vec::new();
        let mut i: usize = 0;
        while i < self.pull_requests.len()
            invariant
                i <= self.pull_requests.len(),
                pred == closed_pred(sprint@),
                store_times_valid(self.pull_requests@),
                pull_request_views(r@) == stored_pull_requests(
                    self.pull_requests@.take(i as int),
                ).filter(pred),
                forall|k: int| 0 <= k < r@.len() ==> pr_times_valid((#[trigger] r@[k])@.request),
            decreases self.pull_requests.len() - i,
        {
            let entry = &self.pull_requests[i].1;
            let mut j: usize = 0;
            while j < entry.len()
                invariant
                    i < self.pull_requests.len(),
                    j <= entry.len(),
                    pred == closed_pred(sprint@),
                    store_times_valid(self.pull_requests@),
                    entry@ == self.pull_requests@[i as int].1@,
                    pull_request_views(r@) == stored_pull_requests(
                        self.pull_requests@.take(i as int),
                    ).filter(pred) + pull_request_views(entry@).take(j as int).filter(pred),
                    forall|k: int|
                        0 <= k < r@.len() ==> pr_times_valid((#[trigger] r@[k])@.request),
                decreases entry.len() - j,
            {
                let p = &entry[j];
                proof {
                    assert(pr_times_valid(self.pull_requests@[i as int].1@[j as int]@.request));
                }
                let keep = include_checked(&p.request.closed_at, sprint);
                proof {
                    assert(pull_request_views(entry@).take(j as int + 1) =~= pull_request_views(
                        entry@,
                    ).take(j as int).push(entry@[j as int]@));
                    pull_request_views(entry@).take(j as int).lemma_filter_push(
                        entry@[j as int]@,
                        pred,
                    );
                    assert(keep == pred(entry@[j as int]@));
                }
                if keep {
                    r.push(p.clone());
                    proof {
                        let af = stored_pull_requests(self.pull_requests@.take(i as int)).filter(
                            pred,
                        );
                        let bf = pull_request_views(entry@).take(j as int).filter(pred);
                        assert(pull_request_views(r@) =~= (af + bf).push(entry@[j as int]@));
                        assert((af + bf).push(entry@[j as int]@) =~= af + bf.push(
                            entry@[j as int]@,
                        ));
                    }
                }
                j = j + 1;
            }
            proof {
                assert(pull_request_views(entry@).take(entry@.len() as int)
                    =~= pull_request_views(entry@));
                assert(self.pull_requests@.take(i as int + 1).drop_last()
                    =~= self.pull_requests@.take(i as int));
                assert(stored_pull_requests(self.pull_requests@.take(i as int + 1))
                    == stored_pull_requests(self.pull_requests@.take(i as int))
                    + pull_request_views(entry@));
                assert((stored_pull_requests(self.pull_requests@.take(i as int))
                    + pull_request_views(entry@)).filter(pred) == stored_pull_requests(
                    self.pull_requests@.take(i as int),
                ).filter(pred) + pull_request_views(entry@).filter(pred));
            }
            i = i + 1;
        }
        proof {
            assert(self.pull_requests@.take(self.pull_requests@.len() as int)
                =~= self.pull_requests@);
        }
        r
    }

    /// Compute one user-sprint cell from all stored events.
    fn analyze_cell(&self, user: &User, sprint: &Sprint) -> (r: UserDataAnalyzed)
        requires
            store_times_valid(self.pull_requests@),
            self.fits(),
        ensures
            r@ == cell_metrics(self.all_commits(), self.all_pull_requests(), user@, sprint@),
    {
        let ghost all_prs = self.all_pull_requests();
        proof {
            lemma_stored_commits_nonneg(self.commits@);
            lemma_stored_comments_nonneg(self.pull_requests@);
        }
        let commits = self.commits_from_user_in_sprint(user, sprint);
        proof {
            lemma_commit_metrics_filter(self.all_commits(), user@, sprint@);
            lemma_commit_metrics_le_sum(self.all_commits(), user@, sprint@);
        }
        let commits_analysis = CommitAnalyzed::from_commits(&commits);
        let mut pull_request_analysis = PullRequestAnalyzed::default();

        let pull_requests = self.pull_requests_from_user_in_sprint(user, sprint);
        let ghost fviews = pull_request_views(pull_requests@);
        proof {
            lemma_total_comment_sum_filter_le(all_prs, author_sel_pred(user@, sprint@));
        }
        let mut i: usize = 0;
        while i < pull_requests.len()
            invariant
                i <= pull_requests.len(),
                fviews == pull_request_views(pull_requests@),
                comments_nonneg(fviews),
                total_comment_sum(fviews) <= usize::MAX as int,
                forall|k: int|
                    0 <= k < pull_requests@.len() ==> pr_times_valid(
                        (#[trigger] pull_requests@[k])@.request,
                    ),
                pull_request_analysis@ == request_received_metrics(
                    fviews.take(i as int),
                    sprint@,
                ),
            decreases pull_requests.len() - i,
        {
            proof {
                lemma_comments_nonneg_take(fviews, i as int);
                lemma_request_received_bounds(fviews.take(i as int), sprint@);
                lemma_request_received_take_succ(fviews, sprint@, i as int);
                lemma_request_received_take_le(fviews, sprint@, i as int + 1);
                lemma_request_received_bounds(fviews, sprint@);
                lemma_total_comment_sum_take_succ(fviews, i as int);
                lemma_total_comment_sum_take_le(fviews, i as int + 1);
                assert(fviews[i as int] == pull_requests@[i as int]@);
                assert(fviews.take(i as int).len() == i as int);
            }
            let p = &pull_requests[i];
            pull_request_analysis.analyze_request(&p.request, sprint);
            pull_request_analysis.analyze_received_discussion(p, sprint);
            proof {
                assert(pull_request_analysis@ == request_received_metrics(
                    fviews.take(i as int + 1),
                    sprint@,
                ));
            }
            i = i + 1;
        }
        proof {
            assert(fviews.take(pull_requests@.len() as int) =~= fviews);
            lemma_author_metrics_via_filter(all_prs, user@, sprint@);
            assert(pull_request_analysis@ == author_metrics(all_prs, user@, sprint@));
        }

        let closed_prs = self.pull_requests_closed_in_sprint(sprint);
        let ghost cviews = pull_request_views(closed_prs@);
        proof {
            lemma_total_comment_sum_filter_le(all_prs, closed_pred(sprint@));
            lemma_request_received_bounds(fviews, sprint@);
        }
        let mut i: usize = 0;
        while i < closed_prs.len()
            invariant
                i <= closed_prs.len(),
                cviews == pull_request_views(closed_prs@),
                comments_nonneg(cviews),
                total_comment_sum(cviews) <= usize::MAX as int,
                forall|k: int|
                    0 <= k < closed_prs@.len() ==> pr_times_valid(
                        (#[trigger] closed_prs@[k])@.request,
                    ),
                pull_request_analysis@ == pt_add(
                    author_metrics(all_prs, user@, sprint@),
                    review_metrics(cviews.take(i as int), user@, sprint@),
                ),
                author_metrics(all_prs, user@, sprint@).approver_assigned == 0,
                author_metrics(all_prs, user@, sprint@).approver_conducted == 0,
                author_metrics(all_prs, user@, sprint@).approver_added_discussions == 0,
            decreases closed_prs.len() - i,
        {
            proof {
                lemma_comments_nonneg_take(cviews, i as int);
                lemma_review_metrics_bounds(cviews.take(i as int), user@, sprint@);
                lemma_review_metrics_take_succ(cviews, user@, sprint@, i as int);
                lemma_review_metrics_take_le(cviews, user@, sprint@, i as int + 1);
                lemma_review_metrics_bounds(cviews, user@, sprint@);
                lemma_total_comment_sum_take_succ(cviews, i as int);
                lemma_total_comment_sum_take_le(cviews, i as int + 1);
                assert(forall|k: int|
                    0 <= k < cviews[i as int].reviews.len() ==> (
                    #[trigger] cviews[i as int].reviews[k]).comments_count >= 0);
                lemma_matching_le_review_sum(cviews[i as int].reviews, user@);
                assert(cviews[i as int] == closed_prs@[i as int]@);
                assert(cviews.take(i as int).len() == i as int);
            }
            let p = &closed_prs[i];
            pull_request_analysis.analyze_reviews(p, sprint, user);
            proof {
                assert(pull_request_analysis@ == pt_add(
                    author_metrics(all_prs, user@, sprint@),
                    review_metrics(cviews.take(i as int + 1), user@, sprint@),
                ));
            }
            i = i + 1;
        }
        proof {
            assert(cviews.take(closed_prs@.len() as int) =~= cviews);
            lemma_review_metrics_via_filter(all_prs, user@, sprint@);
            assert(pull_request_analysis@ == pull_request_metrics(all_prs, user@, sprint@));
        }
        UserDataAnalyzed::new(commits_analysis, pull_request_analysis)
    }

    /// Aggregate every stored event into the (sprint, user) grid.  The
    /// result holds every configured sprint in input order and, inside each,
    /// every configured user in input order, each cell being exactly the
    /// model's fold over all stored events.  A present timestamp that
    /// denotes no instant is handed back instead of a result.
    pub fn analyze_sprints(&self) -> (r: Result<SprintsAnalyzed, InvalidTimestamp>)
        requires
            self.fits(),
        ensures
            match r {
                Ok(res) => store_times_valid(self.pull_requests@) && self.output_ok(res@),
                Err(e) => !store_times_valid(self.pull_requests@) && store_has_invalid(
                    self.pull_requests@,
                    e.timestamp@,
                ),
            },
    {
        if let Err(e) = self.check_store_times() {
            return Err(e);
        }
        let mut sprints_analyzed: SprintsAnalyzed = Vec::new();
        let mut i: usize = 0;
        while i < self.sprints.len()
            invariant
                i <= self.sprints.len(),
                self.fits(),
                store_times_valid(self.pull_requests@),
                sprints_analyzed@.len() == i,
                forall|a: int|
                    0 <= a < i ==> (#[trigger] sprints_analyzed@[a]).0@ == self.sprints@[a]@,
                forall|a: int|
                    0 <= a < i ==> (#[trigger] sprints_analyzed@[a]).1@.len()
                        == self.users@.len(),
                forall|a: int, b: int|
                    0 <= a < i && 0 <= b < self.users@.len() ==> (
                    #[trigger] sprints_analyzed@[a].1@[b]).0@ == self.users@[b]@
                        && sprints_analyzed@[a].1@[b].1@ == cell_metrics(
                        self.all_commits(),
                        self.all_pull_requests(),
                        self.users@[b]@,
                        self.sprints@[a]@,
                    ),
            decreases self.sprints.len() - i,
        {
            let sprint = &self.sprints[i];
            let mut users_analyzed: UsersAnalyzed = Vec::new();
            let mut j: usize = 0;
            while j < self.users.len()
                invariant
                    i < self.sprints.len(),
                    j <= self.users.len(),
                    self.fits(),
                    store_times_valid(self.pull_requests@),
                    *sprint == self.sprints@[i as int],
                    users_analyzed@.len() == j,
                    forall|b: int|
                        0 <= b < j ==> (#[trigger] users_analyzed@[b]).0@ == self.users@[b]@
                            && users_analyzed@[b].1@ == cell_metrics(
                            self.all_commits(),
                            self.all_pull_requests(),
                            self.users@[b]@,
                            self.sprints@[i as int]@,
                        ),
                decreases self.users.len() - j,
            {
                let user = &self.users[j];
                let cell = self.analyze_cell(user, sprint);
                users_analyzed.push((user.clone(), cell));
                j = j + 1;
            }
            sprints_analyzed.push((sprint.clone(), users_analyzed));
            i = i + 1;
        }
        Ok(sprints_analyzed)
    }
}

} // verus!
