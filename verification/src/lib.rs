//! Per-sprint, per-user engineering activity metrics.
//!
//! The library holds the temporal aggregation engine: given the commits and
//! pull requests of a set of repositories, a catalog of users (each with a
//! set of email aliases) and a catalog of sprints (closed time windows), it
//! attributes every event to the right user and sprint and folds it into
//! summary counters.  Reading git history, talking to the code-review
//! service and rendering reports are left to the surrounding program.

use vstd::prelude::*;

pub mod analysis;
pub mod analyzer;
pub mod commit;
pub mod counting;
pub mod laws;
pub mod pull_request;
pub mod report;
pub mod repository;
pub mod sprint;
pub mod timestamp;
pub mod user;

use crate::sprint::Sprint;
use crate::user::User;
use crate::user::UserView;
use crate::user::contains_str;
use crate::user::str_views;

verus! {

/// An instant lies at or after a lower bound.  This is the rule by which
/// the history reader keeps or drops a commit.
pub fn datetime_at_or_after(datetime: i64, since: i64) -> (r: bool)
    ensures
        r == (datetime >= since),
{
    datetime >= since
}

/// Every team name of every user, in user order, duplicates kept.
pub open spec fn all_teams(us: Seq<UserView>) -> Seq<Seq<char>>
    decreases us.len(),
{
    if us.len() == 0 {
        Seq::empty()
    } else {
        all_teams(us.drop_last()) + us.last().teams
    }
}

/// The distinct values of a sequence, each at its first occurrence, in
/// their first-occurrence order.
pub open spec fn distinct_in_order(s: Seq<Seq<char>>) -> Seq<Seq<char>>
    decreases s.len(),
{
    if s.len() == 0 {
        Seq::empty()
    } else {
        let rest = distinct_in_order(s.drop_last());
        if rest.contains(s.last()) {
            rest
        } else {
            rest.push(s.last())
        }
    }
}

/// The earliest sprint start: fetching events from this instant on covers
/// every configured sprint.
pub fn calc_min_since(sprints: &Vec<Sprint>) -> (r: i64)
    requires
        sprints@.len() > 0,
    ensures
        exists|i: int| 0 <= i < sprints@.len() && r == #[trigger] sprints@[i].since,
        forall|i: int| 0 <= i < sprints@.len() ==> r <= #[trigger] sprints@[i].since,
{
    let mut min = sprints[0].since;
    let mut i: usize = 1;
    while i < sprints.len()
        invariant
            1 <= i <= sprints@.len(),
            exists|k: int| 0 <= k < i && min == #[trigger] sprints@[k].since,
            forall|k: int| 0 <= k < i ==> min <= #[trigger] sprints@[k].since,
        decreases sprints.len() - i,
    {
        if sprints[i].since < min {
            min = sprints[i].since;
        }
        i = i + 1;
    }
    min
}

/// The team names that occur across the configured users, each once, in
/// order of first occurrence.
pub fn find_teams(users: &Vec<User>) -> (r: Vec<String>)
    ensures
        str_views(r@) == distinct_in_order(all_teams(users@.map_values(|u: User| u@))),
{
    let ghost uviews = users@.map_values(|u: User| u@);
    let mut r: Vec<String> = Vec::new();
    let mut i: usize = 0;
    while i < users.len()
        invariant
            i <= users.len(),
            uviews == users@.map_values(|u: User| u@),
            str_views(r@) == distinct_in_order(all_teams(uviews.take(i as int))),
        decreases users.len() - i,
    {
        let teams = &users[i].teams;
        let mut j: usize = 0;
        while j < teams.len()
            invariant
                i < users.len(),
                j <= teams.len(),
                uviews == users@.map_values(|u: User| u@),
                teams@ == users@[i as int].teams@,
                str_views(r@) == distinct_in_order(
                    all_teams(uviews.take(i as int)) + str_views(teams@).take(j as int),
                ),
            decreases teams.len() - j,
        {
            let t = &teams[j];
            let present = contains_str(&r, t);
            proof {
                assert(all_teams(uviews.take(i as int)) + str_views(teams@).take(j as int + 1)
                    =~= (all_teams(uviews.take(i as int)) + str_views(teams@).take(
                    j as int,
                )).push(teams@[j as int]@));
                assert((all_teams(uviews.take(i as int)) + str_views(teams@).take(j as int)).push(
                    teams@[j as int]@,
                ).drop_last() =~= all_teams(uviews.take(i as int)) + str_views(teams@).take(
                    j as int,
                ));
            }
            if !present {
                r.push(t.clone());
                proof {
                    assert(str_views(r@) =~= distinct_in_order(
                        all_teams(uviews.take(i as int)) + str_views(teams@).take(j as int),
                    ).push(teams@[j as int]@));
                }
            }
            j = j + 1;
        }
        proof {
            assert(str_views(teams@).take(teams@.len() as int) =~= str_views(teams@));
            assert(uviews.take(i as int + 1).drop_last() =~= uviews.take(i as int));
            assert(uviews.take(i as int + 1).last() == uviews[i as int]);
            assert(uviews[i as int].teams == str_views(teams@));
            assert(all_teams(uviews.take(i as int + 1)) == all_teams(uviews.take(i as int))
                + str_views(teams@));
        }
        i = i + 1;
    }
    proof {
        assert(uviews.take(users@.len() as int) =~= uviews);
    }
    r
}

} // verus!
