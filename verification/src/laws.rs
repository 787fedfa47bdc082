//! Laws of the aggregation, stated over the model of `crate::counting` and
//! proved once and for all.

use vstd::prelude::*;

use crate::analysis::DataAnalysis;
use crate::commit::CommitView;
use crate::counting::commit_delta;
use crate::counting::commit_metrics;
use crate::counting::commit_selected;
use crate::counting::commit_sum;
use crate::counting::ct_add;
use crate::counting::ct_zero;
use crate::counting::request_window_delta;
use crate::pull_request::PullRequestInfoView;
use crate::sprint::SprintView;
use crate::timestamp::opt_ts_in_window;
use crate::timestamp::ts_in_window;
use crate::user::UserView;

verus! {

/// Window inclusivity: an instant exactly on either bound of a sprint lies
/// inside its window, and an instant one nanosecond outside either bound
/// does not.
pub proof fn lemma_window_inclusive(s: SprintView)
    requires
        s.since <= s.until,
    ensures
        ts_in_window(s.since, s.since, s.until),
        ts_in_window(s.until, s.since, s.until),
        !ts_in_window(s.since - 1, s.since, s.until),
        !ts_in_window(s.until + 1, s.since, s.until),
{
}

/// Removing one commit from anywhere in a history takes exactly that
/// commit's contribution out of a cell's counters.
pub proof fn lemma_commit_metrics_remove(s: Seq<CommitView>, k: int, u: UserView, w: SprintView)
    requires
        0 <= k < s.len(),
    ensures
        commit_metrics(s, u, w) == ct_add(
            commit_metrics(s.remove(k), u, w),
            (if commit_selected(s[k], u, w) {
                commit_delta(s[k])
            } else {
                ct_zero()
            }),
        ),
    decreases s.len(),
{
    if k == s.len() - 1 {
        assert(s.remove(k) =~= s.drop_last());
    } else {
        let d = s.drop_last();
        assert(s.remove(k).drop_last() =~= d.remove(k));
        assert(s.remove(k).last() == s.last());
        lemma_commit_metrics_remove(d, k, u, w);
    }
}

/// Commutativity: two commit histories holding the same commits, in
/// whatever order, give every user-sprint cell the same commit counters.
pub proof fn lemma_commit_metrics_permutation(
    a: Seq<CommitView>,
    b: Seq<CommitView>,
    u: UserView,
    s: SprintView,
)
    requires
        a.to_multiset() == b.to_multiset(),
    ensures
        commit_metrics(a, u, s) == commit_metrics(b, u, s),
    decreases a.len(),
{
    broadcast use vstd::seq_lib::group_to_multiset_ensures;

    if a.len() == 0 {
        assert(b.len() == b.to_multiset().len());
    } else {
        let x = a.last();
        let a1 = a.drop_last();
        assert(a1.push(x) =~= a);
        assert(a.to_multiset() =~= a1.to_multiset().insert(x));
        assert(a.contains(x));
        assert(b.to_multiset().count(x) > 0);
        assert(b.contains(x));
        let k = choose|k: int| 0 <= k < b.len() && b[k] == x;
        let b1 = b.remove(k);
        assert(b1.to_multiset() =~= b.to_multiset().remove(x));
        assert(a1.to_multiset() =~= b1.to_multiset()) by {
            assert(a1.to_multiset() =~= a.to_multiset().remove(x));
        }
        lemma_commit_metrics_permutation(a1, b1, u, s);
        lemma_commit_metrics_remove(b, k, u, s);
        assert(commit_metrics(a, u, s) == ct_add(
            commit_metrics(a1, u, s),
            (if commit_selected(x, u, s) {
                commit_delta(x)
            } else {
                ct_zero()
            }),
        ));
    }
}

/// Commutativity at the store: two event stores holding the same commits,
/// however they were fed in, give every user-sprint cell the same commit
/// counters.
pub proof fn lemma_store_commit_permutation(
    a: DataAnalysis,
    b: DataAnalysis,
    u: UserView,
    s: SprintView,
)
    requires
        a.all_commits().to_multiset() == b.all_commits().to_multiset(),
    ensures
        commit_metrics(a.all_commits(), u, s) == commit_metrics(b.all_commits(), u, s),
{
    lemma_commit_metrics_permutation(a.all_commits(), b.all_commits(), u, s);
}

/// Window inclusivity for a commit of a tracked author: on either bound of
/// the sprint it belongs to the cell; one nanosecond outside either bound
/// it does not.
pub proof fn lemma_commit_window_inclusive(c: CommitView, u: UserView, s: SprintView)
    requires
        u.emails.contains(c.email),
        s.since <= s.until,
    ensures
        c.datetime == s.since ==> commit_selected(c, u, s),
        c.datetime == s.until ==> commit_selected(c, u, s),
        c.datetime == s.since - 1 ==> !commit_selected(c, u, s),
        c.datetime == s.until + 1 ==> !commit_selected(c, u, s),
{
}

/// Alias union: when every commit of a history was authored under one of
/// two aliases of the same user, at an instant inside the sprint window,
/// the user's one cell counts every one of those commits.
pub proof fn lemma_alias_union(
    cs: Seq<CommitView>,
    u: UserView,
    s: SprintView,
    e1: Seq<char>,
    e2: Seq<char>,
)
    requires
        u.emails.contains(e1),
        u.emails.contains(e2),
        forall|i: int|
            0 <= i < cs.len() ==> ((#[trigger] cs[i]).email == e1 || cs[i].email == e2)
                && ts_in_window(cs[i].datetime, s.since, s.until),
    ensures
        commit_metrics(cs, u, s) == commit_sum(cs),
    decreases cs.len(),
{
    if cs.len() > 0 {
        let d = cs.drop_last();
        assert(forall|i: int| 0 <= i < d.len() ==> #[trigger] d[i] == cs[i]);
        lemma_alias_union(d, u, s, e1, e2);
        assert(commit_selected(cs.last(), u, s));
    }
}

/// Cross-sprint merge: a pull request whose merge instant lies inside
/// sprint A only and whose close instant lies inside sprint B only counts
/// toward neither sprint's merged counter; it counts toward B's closed
/// counter (its merge instant not being in B's window) and not toward A's.
pub proof fn lemma_cross_sprint_merge(p: PullRequestInfoView, a: SprintView, b: SprintView)
    requires
        opt_ts_in_window(p.merged_at, a.since, a.until),
        !opt_ts_in_window(p.merged_at, b.since, b.until),
        opt_ts_in_window(p.closed_at, b.since, b.until),
        !opt_ts_in_window(p.closed_at, a.since, a.until),
    ensures
        request_window_delta(p, a).merged_pull_requests == 0,
        request_window_delta(p, b).merged_pull_requests == 0,
        request_window_delta(p, a).closed_pull_requests == 0,
        request_window_delta(p, b).closed_pull_requests == 1,
{
}

} // verus!
