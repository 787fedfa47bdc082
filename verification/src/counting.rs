//! The mathematical model of the aggregation: what each event adds to a
//! user-sprint cell, and the folds that sum a whole event sequence.
//!
//! Every fold walks its sequence from the back (`drop_last`), matching how
//! vstd's `Seq::filter` recurses; all deltas are non-negative, so partial
//! sums are bounded by the total, which is how the executable loops prove
//! their arithmetic safe.

use vstd::prelude::*;

use crate::commit::CommitView;
use crate::pull_request::PullRequestInfoView;
use crate::pull_request::PullRequestView;
use crate::pull_request::ReviewState;
use crate::pull_request::ReviewView;
use crate::sprint::SprintView;
use crate::timestamp::opt_ts_in_window;
use crate::timestamp::ts_in_window;
use crate::timestamp::ts_str_in_window;
use crate::user::UserView;

verus! {

// ---------------------------------------------------------------------------
// Commit metrics
// ---------------------------------------------------------------------------
/// The commit counters of one user-sprint cell, as unbounded integers.
pub ghost struct CommitTotals {
    pub files_changed: int,
    pub change_lines: int,
    pub insertions: int,
    pub deletions: int,
    pub commits: int,
}

pub open spec fn ct_zero() -> CommitTotals {
    CommitTotals { files_changed: 0, change_lines: 0, insertions: 0, deletions: 0, commits: 0 }
}

pub open spec fn ct_add(a: CommitTotals, b: CommitTotals) -> CommitTotals {
    CommitTotals {
        files_changed: a.files_changed + b.files_changed,
        change_lines: a.change_lines + b.change_lines,
        insertions: a.insertions + b.insertions,
        deletions: a.deletions + b.deletions,
        commits: a.commits + b.commits,
    }
}

pub open spec fn ct_le(a: CommitTotals, b: CommitTotals) -> bool {
    &&& a.files_changed <= b.files_changed
    &&& a.change_lines <= b.change_lines
    &&& a.insertions <= b.insertions
    &&& a.deletions <= b.deletions
    &&& a.commits <= b.commits
}

/// The totals fit the machine's counter width.
pub open spec fn ct_fits(t: CommitTotals) -> bool {
    &&& t.files_changed <= usize::MAX as int
    &&& t.change_lines <= usize::MAX as int
    &&& t.insertions <= usize::MAX as int
    &&& t.deletions <= usize::MAX as int
    &&& t.commits <= usize::MAX as int
}

/// What one commit contributes: its diff statistics, its insertions plus
/// deletions as changed lines, and one commit.
pub open spec fn commit_delta(c: CommitView) -> CommitTotals {
    CommitTotals {
        files_changed: c.files_changed,
        change_lines: c.insertions + c.deletions,
        insertions: c.insertions,
        deletions: c.deletions,
        commits: 1,
    }
}

/// The totals of every commit in the sequence.
pub open spec fn commit_sum(cs: Seq<CommitView>) -> CommitTotals
    decreases cs.len(),
{
    if cs.len() == 0 {
        ct_zero()
    } else {
        ct_add(commit_sum(cs.drop_last()), commit_delta(cs.last()))
    }
}

/// A commit belongs to a user-sprint cell: it was authored under one of the
/// user's email aliases, at an instant inside the sprint window.
pub open spec fn commit_selected(c: CommitView, u: UserView, s: SprintView) -> bool {
    u.emails.contains(c.email) && ts_in_window(c.datetime, s.since, s.until)
}

pub open spec fn selected_pred(u: UserView, s: SprintView) -> spec_fn(CommitView) -> bool {
    |c: CommitView| commit_selected(c, u, s)
}

/// The commit counters of one user-sprint cell: the totals of the commits
/// that belong to it.
pub open spec fn commit_metrics(cs: Seq<CommitView>, u: UserView, s: SprintView) -> CommitTotals
    decreases cs.len(),
{
    if cs.len() == 0 {
        ct_zero()
    } else {
        ct_add(
            commit_metrics(cs.drop_last(), u, s),
            if commit_selected(cs.last(), u, s) {
                commit_delta(cs.last())
            } else {
                ct_zero()
            },
        )
    }
}

pub proof fn lemma_commit_sum_push(cs: Seq<CommitView>, c: CommitView)
    ensures
        commit_sum(cs.push(c)) == ct_add(commit_sum(cs), commit_delta(c)),
{
    assert(cs.push(c).drop_last() =~= cs);
}

pub proof fn lemma_commit_sum_take_succ(cs: Seq<CommitView>, i: int)
    requires
        0 <= i < cs.len(),
    ensures
        commit_sum(cs.take(i + 1)) == ct_add(commit_sum(cs.take(i)), commit_delta(cs[i])),
{
    assert(cs.take(i + 1).drop_last() =~= cs.take(i));
    assert(cs.take(i + 1).last() == cs[i]);
}

/// Every commit in the sequence carries non-negative statistics, as any
/// commit built from machine counts does.
pub open spec fn commits_nonneg(cs: Seq<CommitView>) -> bool {
    forall|i: int|
        0 <= i < cs.len() ==> (#[trigger] cs[i]).files_changed >= 0 && cs[i].insertions >= 0
            && cs[i].deletions >= 0
}

/// Deltas are non-negative, so the totals of a prefix never exceed the
/// totals of the whole sequence.
pub proof fn lemma_commit_sum_take_le(cs: Seq<CommitView>, j: int)
    requires
        0 <= j <= cs.len(),
        commits_nonneg(cs),
    ensures
        ct_le(commit_sum(cs.take(j)), commit_sum(cs)),
    decreases cs.len() - j,
{
    if j == cs.len() {
        assert(cs.take(j) =~= cs);
    } else {
        lemma_commit_sum_take_succ(cs, j);
        lemma_commit_sum_take_le(cs, j + 1);
    }
}

/// The cell counters count a subset of the commits, so they never exceed
/// the totals of the whole sequence.
pub proof fn lemma_commit_metrics_le_sum(cs: Seq<CommitView>, u: UserView, s: SprintView)
    requires
        commits_nonneg(cs),
    ensures
        ct_le(ct_zero(), commit_metrics(cs, u, s)),
        ct_le(commit_metrics(cs, u, s), commit_sum(cs)),
    decreases cs.len(),
{
    if cs.len() > 0 {
        let d = cs.drop_last();
        assert(commits_nonneg(d)) by {
            assert(forall|i: int| 0 <= i < d.len() ==> d[i] == cs[i]);
        }
        lemma_commit_metrics_le_sum(d, u, s);
    }
}

/// The cell counters equal the plain totals of the commits that belong to
/// the cell.
pub proof fn lemma_commit_metrics_filter(cs: Seq<CommitView>, u: UserView, s: SprintView)
    ensures
        commit_metrics(cs, u, s) == commit_sum(cs.filter(selected_pred(u, s))),
    decreases cs.len(),
{
    let pred = selected_pred(u, s);
    if cs.len() == 0 {
        assert(cs.filter(pred) =~= Seq::<CommitView>::empty());
    } else {
        let d = cs.drop_last();
        lemma_commit_metrics_filter(d, u, s);
        d.lemma_filter_push(cs.last(), pred);
        assert(d.push(cs.last()) =~= cs);
        if pred(cs.last()) {
            lemma_commit_sum_push(d.filter(pred), cs.last());
        }
    }
}

// ---------------------------------------------------------------------------
// Pull-request metrics
// ---------------------------------------------------------------------------
/// The pull-request counters of one user-sprint cell, as unbounded integers.
pub ghost struct PullRequestTotals {
    pub create_pull_requests: int,
    pub merged_pull_requests: int,
    pub closed_pull_requests: int,
    pub received_discussions: int,
    pub approver_assigned: int,
    pub approver_conducted: int,
    pub approver_added_discussions: int,
}

pub open spec fn pt_zero() -> PullRequestTotals {
    PullRequestTotals {
        create_pull_requests: 0,
        merged_pull_requests: 0,
        closed_pull_requests: 0,
        received_discussions: 0,
        approver_assigned: 0,
        approver_conducted: 0,
        approver_added_discussions: 0,
    }
}

pub open spec fn pt_add(a: PullRequestTotals, b: PullRequestTotals) -> PullRequestTotals {
    PullRequestTotals {
        create_pull_requests: a.create_pull_requests + b.create_pull_requests,
        merged_pull_requests: a.merged_pull_requests + b.merged_pull_requests,
        closed_pull_requests: a.closed_pull_requests + b.closed_pull_requests,
        received_discussions: a.received_discussions + b.received_discussions,
        approver_assigned: a.approver_assigned + b.approver_assigned,
        approver_conducted: a.approver_conducted + b.approver_conducted,
        approver_added_discussions: a.approver_added_discussions + b.approver_added_discussions,
    }
}

pub open spec fn pt_le(a: PullRequestTotals, b: PullRequestTotals) -> bool {
    &&& a.create_pull_requests <= b.create_pull_requests
    &&& a.merged_pull_requests <= b.merged_pull_requests
    &&& a.closed_pull_requests <= b.closed_pull_requests
    &&& a.received_discussions <= b.received_discussions
    &&& a.approver_assigned <= b.approver_assigned
    &&& a.approver_conducted <= b.approver_conducted
    &&& a.approver_added_discussions <= b.approver_added_discussions
}

/// The comment count of every review on one pull request, summed.
pub open spec fn review_comment_sum(rs: Seq<ReviewView>) -> int
    decreases rs.len(),
{
    if rs.len() == 0 {
        0
    } else {
        review_comment_sum(rs.drop_last()) + rs.last().comments_count
    }
}

/// The comment count of every pull request's reviews, summed over a whole
/// sequence of pull requests.
pub open spec fn total_comment_sum(ps: Seq<PullRequestView>) -> int
    decreases ps.len(),
{
    if ps.len() == 0 {
        0
    } else {
        total_comment_sum(ps.drop_last()) + review_comment_sum(ps.last().reviews)
    }
}

/// A review was left by the given user: the review carries an identity and
/// it is one of the user's email aliases.
pub open spec fn reviewer_matches(r: ReviewView, u: UserView) -> bool {
    match r.user {
        Some(email) => u.emails.contains(email),
        None => false,
    }
}

/// The review states that count as a conducted review.
pub open spec fn conducted_state(s: ReviewState) -> bool {
    s == ReviewState::Approved || s == ReviewState::RequestChanges
}

/// The comment count of the user's own reviews on one pull request, summed.
pub open spec fn matching_comment_sum(rs: Seq<ReviewView>, u: UserView) -> int
    decreases rs.len(),
{
    if rs.len() == 0 {
        0
    } else {
        matching_comment_sum(rs.drop_last(), u) + if reviewer_matches(rs.last(), u) {
            rs.last().comments_count
        } else {
            0
        }
    }
}

/// Some review on the pull request was left by the user.
pub open spec fn has_assigned_review(rs: Seq<ReviewView>, u: UserView) -> bool {
    exists|i: int| 0 <= i < rs.len() && reviewer_matches(rs[i], u)
}

/// Some review by the user approved or requested changes.
pub open spec fn has_conducted_review(rs: Seq<ReviewView>, u: UserView) -> bool {
    exists|i: int|
        0 <= i < rs.len() && reviewer_matches(rs[i], u) && conducted_state(rs[i].state)
}

/// What one request adds to its author's created/merged/closed counters for
/// one sprint window: created counts when the creation instant is inside;
/// merged counts when the merge and the close instants are both inside;
/// closed (without merge) counts when the close instant is inside and the
/// merge instant is not.
pub open spec fn request_window_delta(p: PullRequestInfoView, s: SprintView) -> PullRequestTotals {
    PullRequestTotals {
        create_pull_requests: if ts_str_in_window(p.created_at, s.since, s.until) {
            1
        } else {
            0
        },
        merged_pull_requests: if opt_ts_in_window(p.merged_at, s.since, s.until)
            && opt_ts_in_window(p.closed_at, s.since, s.until) {
            1
        } else {
            0
        },
        closed_pull_requests: if !opt_ts_in_window(p.merged_at, s.since, s.until)
            && opt_ts_in_window(p.closed_at, s.since, s.until) {
            1
        } else {
            0
        },
        received_discussions: 0,
        approver_assigned: 0,
        approver_conducted: 0,
        approver_added_discussions: 0,
    }
}

/// What one pull request adds to its author's received-discussion counter:
/// the comments of all its reviews, when it was closed inside the window.
pub open spec fn received_delta(pr: PullRequestView, s: SprintView) -> PullRequestTotals {
    PullRequestTotals {
        create_pull_requests: 0,
        merged_pull_requests: 0,
        closed_pull_requests: 0,
        received_discussions: if opt_ts_in_window(pr.request.closed_at, s.since, s.until) {
            review_comment_sum(pr.reviews)
        } else {
            0
        },
        approver_assigned: 0,
        approver_conducted: 0,
        approver_added_discussions: 0,
    }
}

/// What one pull request adds to the cell of the user as its author.
pub open spec fn author_delta(pr: PullRequestView, u: UserView, s: SprintView) -> PullRequestTotals {
    if u.emails.contains(pr.request.author_email) {
        pt_add(request_window_delta(pr.request, s), received_delta(pr, s))
    } else {
        pt_zero()
    }
}

/// What one pull request adds to the review side of the user's cell: when
/// the request was closed inside the window, one assignment if the user
/// reviewed it at all, one conducted review if any of the user's reviews
/// approved or requested changes, and the comments of the user's reviews.
pub open spec fn review_delta(pr: PullRequestView, u: UserView, s: SprintView) -> PullRequestTotals {
    if opt_ts_in_window(pr.request.closed_at, s.since, s.until) {
        PullRequestTotals {
            create_pull_requests: 0,
            merged_pull_requests: 0,
            closed_pull_requests: 0,
            received_discussions: 0,
            approver_assigned: if has_assigned_review(pr.reviews, u) {
                1
            } else {
                0
            },
            approver_conducted: if has_conducted_review(pr.reviews, u) {
                1
            } else {
                0
            },
            approver_added_discussions: matching_comment_sum(pr.reviews, u),
        }
    } else {
        pt_zero()
    }
}

/// The author-side counters of one user-sprint cell over a sequence of pull
/// requests.
pub open spec fn author_metrics(ps: Seq<PullRequestView>, u: UserView, s: SprintView) -> PullRequestTotals
    decreases ps.len(),
{
    if ps.len() == 0 {
        pt_zero()
    } else {
        pt_add(author_metrics(ps.drop_last(), u, s), author_delta(ps.last(), u, s))
    }
}

/// The review-side counters of one user-sprint cell over a sequence of
/// pull requests.
pub open spec fn review_metrics(ps: Seq<PullRequestView>, u: UserView, s: SprintView) -> PullRequestTotals
    decreases ps.len(),
{
    if ps.len() == 0 {
        pt_zero()
    } else {
        pt_add(review_metrics(ps.drop_last(), u, s), review_delta(ps.last(), u, s))
    }
}

/// The pull-request counters of one user-sprint cell: the author-side and
/// the review-side counters together.
pub open spec fn pull_request_metrics(
    ps: Seq<PullRequestView>,
    u: UserView,
    s: SprintView,
) -> PullRequestTotals {
    pt_add(author_metrics(ps, u, s), review_metrics(ps, u, s))
}

/// The author-side delta without the author test: what the per-request
/// analysis adds once a request is already known to be the user's.
pub open spec fn request_received_delta(pr: PullRequestView, s: SprintView) -> PullRequestTotals {
    pt_add(request_window_delta(pr.request, s), received_delta(pr, s))
}

/// The fold the author-side loop computes over an already-filtered list.
pub open spec fn request_received_metrics(ps: Seq<PullRequestView>, s: SprintView) -> PullRequestTotals
    decreases ps.len(),
{
    if ps.len() == 0 {
        pt_zero()
    } else {
        pt_add(request_received_metrics(ps.drop_last(), s), request_received_delta(ps.last(), s))
    }
}

/// A pull request is the user's own and touches the window with one of its
/// three instants: the list the author-side loop walks.
pub open spec fn author_sel_pred(u: UserView, s: SprintView) -> spec_fn(PullRequestView) -> bool {
    |p: PullRequestView|
        u.emails.contains(p.request.author_email) && {
            ||| ts_str_in_window(p.request.created_at, s.since, s.until)
            ||| opt_ts_in_window(p.request.merged_at, s.since, s.until)
            ||| opt_ts_in_window(p.request.closed_at, s.since, s.until)
        }
}

/// A pull request was closed inside the window: the list the review-side
/// loop walks.
pub open spec fn closed_pred(s: SprintView) -> spec_fn(PullRequestView) -> bool {
    |p: PullRequestView| opt_ts_in_window(p.request.closed_at, s.since, s.until)
}

// ---------------------------------------------------------------------------
// Lemmas about the pull-request folds
// ---------------------------------------------------------------------------
pub proof fn lemma_review_comment_sum_take_succ(rs: Seq<ReviewView>, i: int)
    requires
        0 <= i < rs.len(),
    ensures
        review_comment_sum(rs.take(i + 1)) == review_comment_sum(rs.take(i)) + rs[i].comments_count,
{
    assert(rs.take(i + 1).drop_last() =~= rs.take(i));
    assert(rs.take(i + 1).last() == rs[i]);
}

pub proof fn lemma_review_comment_sum_nonneg(rs: Seq<ReviewView>)
    requires
        forall|i: int| 0 <= i < rs.len() ==> #[trigger] rs[i].comments_count >= 0,
    ensures
        review_comment_sum(rs) >= 0,
    decreases rs.len(),
{
    if rs.len() > 0 {
        lemma_review_comment_sum_nonneg(rs.drop_last());
    }
}

pub proof fn lemma_review_comment_sum_take_le(rs: Seq<ReviewView>, j: int)
    requires
        0 <= j <= rs.len(),
        forall|i: int| 0 <= i < rs.len() ==> #[trigger] rs[i].comments_count >= 0,
    ensures
        review_comment_sum(rs.take(j)) <= review_comment_sum(rs),
    decreases rs.len() - j,
{
    if j == rs.len() {
        assert(rs.take(j) =~= rs);
    } else {
        lemma_review_comment_sum_take_succ(rs, j);
        lemma_review_comment_sum_take_le(rs, j + 1);
    }
}

pub proof fn lemma_matching_comment_sum_take_succ(rs: Seq<ReviewView>, u: UserView, i: int)
    requires
        0 <= i < rs.len(),
    ensures
        matching_comment_sum(rs.take(i + 1), u) == matching_comment_sum(rs.take(i), u) + if reviewer_matches(rs[i], u) {
            rs[i].comments_count
        } else {
            0
        },
{
    assert(rs.take(i + 1).drop_last() =~= rs.take(i));
    assert(rs.take(i + 1).last() == rs[i]);
}

/// The user's own comments on a pull request are a part of all the comments
/// on it.
pub proof fn lemma_matching_le_review_sum(rs: Seq<ReviewView>, u: UserView)
    requires
        forall|i: int| 0 <= i < rs.len() ==> #[trigger] rs[i].comments_count >= 0,
    ensures
        0 <= matching_comment_sum(rs, u),
        matching_comment_sum(rs, u) <= review_comment_sum(rs),
    decreases rs.len(),
{
    if rs.len() > 0 {
        lemma_matching_le_review_sum(rs.drop_last(), u);
    }
}

pub proof fn lemma_matching_comment_sum_take_le(rs: Seq<ReviewView>, u: UserView, j: int)
    requires
        0 <= j <= rs.len(),
        forall|i: int| 0 <= i < rs.len() ==> #[trigger] rs[i].comments_count >= 0,
    ensures
        matching_comment_sum(rs.take(j), u) <= matching_comment_sum(rs, u),
    decreases rs.len() - j,
{
    if j == rs.len() {
        assert(rs.take(j) =~= rs);
    } else {
        lemma_matching_comment_sum_take_succ(rs, u, j);
        lemma_matching_comment_sum_take_le(rs, u, j + 1);
    }
}

/// Extending the review list by one review extends the two "some review by
/// the user" tests in the evident way.
pub proof fn lemma_review_flags_push(rs: Seq<ReviewView>, e: ReviewView, u: UserView)
    ensures
        has_assigned_review(rs.push(e), u) == (has_assigned_review(rs, u) || reviewer_matches(
            e,
            u,
        )),
        has_conducted_review(rs.push(e), u) == (has_conducted_review(rs, u) || (reviewer_matches(
            e,
            u,
        ) && conducted_state(e.state))),
{
    let p = rs.push(e);
    assert(p[rs.len() as int] == e);
    assert(forall|i: int| 0 <= i < rs.len() ==> p[i] == rs[i]);
    if has_assigned_review(p, u) {
        let i = choose|i: int| 0 <= i < p.len() && reviewer_matches(p[i], u);
        if i < rs.len() {
            assert(reviewer_matches(rs[i], u));
        }
    }
    if has_assigned_review(rs, u) {
        let i = choose|i: int| 0 <= i < rs.len() && reviewer_matches(rs[i], u);
        assert(reviewer_matches(p[i], u));
    }
    if reviewer_matches(e, u) {
        assert(reviewer_matches(p[rs.len() as int], u));
    }
    if has_conducted_review(p, u) {
        let i = choose|i: int|
            0 <= i < p.len() && reviewer_matches(p[i], u) && conducted_state(p[i].state);
        if i < rs.len() {
            assert(reviewer_matches(rs[i], u) && conducted_state(rs[i].state));
        }
    }
    if has_conducted_review(rs, u) {
        let i = choose|i: int|
            0 <= i < rs.len() && reviewer_matches(rs[i], u) && conducted_state(rs[i].state);
        assert(reviewer_matches(p[i], u) && conducted_state(p[i].state));
    }
    if reviewer_matches(e, u) && conducted_state(e.state) {
        assert(reviewer_matches(p[rs.len() as int], u) && conducted_state(
            p[rs.len() as int].state,
        ));
    }
}

pub proof fn lemma_total_comment_sum_push(ps: Seq<PullRequestView>, e: PullRequestView)
    ensures
        total_comment_sum(ps.push(e)) == total_comment_sum(ps) + review_comment_sum(e.reviews),
{
    assert(ps.push(e).drop_last() =~= ps);
}

/// Each pull request's reviews carry non-negative comment counts.
pub open spec fn comments_nonneg(ps: Seq<PullRequestView>) -> bool {
    forall|i: int, j: int|
        0 <= i < ps.len() && 0 <= j < ps[i].reviews.len() ==> (#[trigger] ps[i].reviews[j]).comments_count
            >= 0
}

pub proof fn lemma_total_comment_sum_nonneg(ps: Seq<PullRequestView>)
    requires
        comments_nonneg(ps),
    ensures
        total_comment_sum(ps) >= 0,
    decreases ps.len(),
{
    if ps.len() > 0 {
        let d = ps.drop_last();
        assert(comments_nonneg(d));
        lemma_total_comment_sum_nonneg(d);
        lemma_review_comment_sum_nonneg(ps.last().reviews);
    }
}

/// Keeping only some pull requests never increases the total comment count.
pub proof fn lemma_total_comment_sum_filter_le(
    ps: Seq<PullRequestView>,
    pred: spec_fn(PullRequestView) -> bool,
)
    requires
        comments_nonneg(ps),
    ensures
        total_comment_sum(ps.filter(pred)) <= total_comment_sum(ps),
        comments_nonneg(ps.filter(pred)),
    decreases ps.len(),
{
    broadcast use vstd::seq_lib::group_filter_ensures;

    if ps.len() == 0 {
        assert(ps.filter(pred) =~= Seq::<PullRequestView>::empty());
    } else {
        let d = ps.drop_last();
        assert(comments_nonneg(d));
        lemma_total_comment_sum_filter_le(d, pred);
        d.lemma_filter_push(ps.last(), pred);
        assert(d.push(ps.last()) =~= ps);
        lemma_review_comment_sum_nonneg(ps.last().reviews);
        if pred(ps.last()) {
            lemma_total_comment_sum_push(d.filter(pred), ps.last());
            assert(comments_nonneg(d.filter(pred).push(ps.last()))) by {
                let f = d.filter(pred).push(ps.last());
                assert forall|i: int, j: int|
                    0 <= i < f.len() && 0 <= j < f[i].reviews.len() implies (
                #[trigger] f[i].reviews[j]).comments_count >= 0 by {
                    if i < f.len() - 1 {
                        assert(f[i] == d.filter(pred)[i]);
                    } else {
                        assert(f[i] == ps.last());
                    }
                }
            }
        }
    }
}

pub proof fn lemma_total_comment_sum_take_succ(ps: Seq<PullRequestView>, i: int)
    requires
        0 <= i < ps.len(),
    ensures
        total_comment_sum(ps.take(i + 1)) == total_comment_sum(ps.take(i)) + review_comment_sum(
            ps[i].reviews,
        ),
{
    assert(ps.take(i + 1).drop_last() =~= ps.take(i));
    assert(ps.take(i + 1).last() == ps[i]);
}

pub proof fn lemma_total_comment_sum_take_le(ps: Seq<PullRequestView>, j: int)
    requires
        0 <= j <= ps.len(),
        comments_nonneg(ps),
    ensures
        total_comment_sum(ps.take(j)) <= total_comment_sum(ps),
    decreases ps.len() - j,
{
    if j == ps.len() {
        assert(ps.take(j) =~= ps);
    } else {
        lemma_total_comment_sum_take_succ(ps, j);
        lemma_review_comment_sum_nonneg(ps[j].reviews);
        lemma_total_comment_sum_take_le(ps, j + 1);
    }
}

/// Non-negative comment counts carry over to any prefix.
pub proof fn lemma_comments_nonneg_take(ps: Seq<PullRequestView>, j: int)
    requires
        0 <= j <= ps.len(),
        comments_nonneg(ps),
    ensures
        comments_nonneg(ps.take(j)),
{
    let t = ps.take(j);
    assert forall|a: int, b: int| 0 <= a < t.len() && 0 <= b < t[a].reviews.len() implies (
    #[trigger] t[a].reviews[b]).comments_count >= 0 by {
        assert(t[a] == ps[a]);
        assert(ps[a].reviews[b].comments_count >= 0);
    }
}

pub proof fn lemma_request_received_take_succ(ps: Seq<PullRequestView>, s: SprintView, i: int)
    requires
        0 <= i < ps.len(),
    ensures
        request_received_metrics(ps.take(i + 1), s) == pt_add(
            request_received_metrics(ps.take(i), s),
            request_received_delta(ps[i], s),
        ),
{
    assert(ps.take(i + 1).drop_last() =~= ps.take(i));
    assert(ps.take(i + 1).last() == ps[i]);
}

/// Bounds on the author-side fold: each counted request adds at most one to
/// each counter and at most its reviews' comments to the received tally.
pub proof fn lemma_request_received_bounds(ps: Seq<PullRequestView>, s: SprintView)
    requires
        comments_nonneg(ps),
    ensures
        0 <= request_received_metrics(ps, s).create_pull_requests <= ps.len(),
        0 <= request_received_metrics(ps, s).merged_pull_requests <= ps.len(),
        0 <= request_received_metrics(ps, s).closed_pull_requests <= ps.len(),
        0 <= request_received_metrics(ps, s).received_discussions <= total_comment_sum(ps),
        request_received_metrics(ps, s).approver_assigned == 0,
        request_received_metrics(ps, s).approver_conducted == 0,
        request_received_metrics(ps, s).approver_added_discussions == 0,
    decreases ps.len(),
{
    if ps.len() > 0 {
        let d = ps.drop_last();
        assert(comments_nonneg(d));
        lemma_request_received_bounds(d, s);
        lemma_review_comment_sum_nonneg(ps.last().reviews);
    }
}

pub proof fn lemma_review_metrics_take_succ(ps: Seq<PullRequestView>, u: UserView, s: SprintView, i: int)
    requires
        0 <= i < ps.len(),
    ensures
        review_metrics(ps.take(i + 1), u, s) == pt_add(
            review_metrics(ps.take(i), u, s),
            review_delta(ps[i], u, s),
        ),
{
    assert(ps.take(i + 1).drop_last() =~= ps.take(i));
    assert(ps.take(i + 1).last() == ps[i]);
}

/// Bounds on the review-side fold.
pub proof fn lemma_review_metrics_bounds(ps: Seq<PullRequestView>, u: UserView, s: SprintView)
    requires
        comments_nonneg(ps),
    ensures
        review_metrics(ps, u, s).create_pull_requests == 0,
        review_metrics(ps, u, s).merged_pull_requests == 0,
        review_metrics(ps, u, s).closed_pull_requests == 0,
        review_metrics(ps, u, s).received_discussions == 0,
        0 <= review_metrics(ps, u, s).approver_assigned <= ps.len(),
        0 <= review_metrics(ps, u, s).approver_conducted <= ps.len(),
        0 <= review_metrics(ps, u, s).approver_added_discussions <= total_comment_sum(ps),
    decreases ps.len(),
{
    if ps.len() > 0 {
        let d = ps.drop_last();
        assert(comments_nonneg(d));
        lemma_review_metrics_bounds(d, u, s);
        lemma_matching_le_review_sum(ps.last().reviews, u);
    }
}

/// The author-side counters over all pull requests equal the unconditioned
/// per-request fold over just the user's window-touching requests: requests
/// by other authors add nothing, and the user's requests whose instants all
/// miss the window have an all-zero delta.
pub proof fn lemma_author_metrics_via_filter(ps: Seq<PullRequestView>, u: UserView, s: SprintView)
    ensures
        author_metrics(ps, u, s) == request_received_metrics(ps.filter(author_sel_pred(u, s)), s),
    decreases ps.len(),
{
    let pred = author_sel_pred(u, s);
    if ps.len() == 0 {
        assert(ps.filter(pred) =~= Seq::<PullRequestView>::empty());
    } else {
        let d = ps.drop_last();
        let e = ps.last();
        lemma_author_metrics_via_filter(d, u, s);
        d.lemma_filter_push(e, pred);
        assert(d.push(e) =~= ps);
        if pred(e) {
            assert(d.filter(pred).push(e).drop_last() =~= d.filter(pred));
        } else {
            assert(author_delta(e, u, s) == pt_zero());
        }
    }
}

/// The review-side counters over all pull requests equal the same fold
/// over just the requests closed inside the window: a request closed
/// elsewhere has an all-zero review delta.
pub proof fn lemma_review_metrics_via_filter(ps: Seq<PullRequestView>, u: UserView, s: SprintView)
    ensures
        review_metrics(ps, u, s) == review_metrics(ps.filter(closed_pred(s)), u, s),
    decreases ps.len(),
{
    let pred = closed_pred(s);
    if ps.len() == 0 {
        assert(ps.filter(pred) =~= Seq::<PullRequestView>::empty());
    } else {
        let d = ps.drop_last();
        let e = ps.last();
        lemma_review_metrics_via_filter(d, u, s);
        d.lemma_filter_push(e, pred);
        assert(d.push(e) =~= ps);
        if pred(e) {
            assert(d.filter(pred).push(e).drop_last() =~= d.filter(pred));
        } else {
            assert(review_delta(e, u, s) == pt_zero());
        }
    }
}

/// Prefixes of the author-side fold are bounded by the whole fold.
pub proof fn lemma_request_received_take_le(ps: Seq<PullRequestView>, s: SprintView, j: int)
    requires
        0 <= j <= ps.len(),
        comments_nonneg(ps),
    ensures
        pt_le(request_received_metrics(ps.take(j), s), request_received_metrics(ps, s)),
    decreases ps.len() - j,
{
    if j == ps.len() {
        assert(ps.take(j) =~= ps);
    } else {
        lemma_request_received_take_succ(ps, s, j);
        lemma_review_comment_sum_nonneg(ps[j].reviews);
        lemma_request_received_take_le(ps, s, j + 1);
    }
}

/// Prefixes of the review-side fold are bounded by the whole fold.
pub proof fn lemma_review_metrics_take_le(ps: Seq<PullRequestView>, u: UserView, s: SprintView, j: int)
    requires
        0 <= j <= ps.len(),
        comments_nonneg(ps),
    ensures
        pt_le(review_metrics(ps.take(j), u, s), review_metrics(ps, u, s)),
    decreases ps.len() - j,
{
    if j == ps.len() {
        assert(ps.take(j) =~= ps);
    } else {
        lemma_review_metrics_take_succ(ps, u, s, j);
        lemma_matching_le_review_sum(ps[j].reviews, u);
        lemma_review_metrics_take_le(ps, u, s, j + 1);
    }
}

} // verus!
