//! A pull request with its reviews, as the review service reports them.
//!
//! The create/merge/close instants arrive as RFC 3339 text and stay text:
//! the engine parses them at the point of each window test, and a present
//! timestamp that denotes no instant is a fatal condition there.

use vstd::prelude::*;

use crate::timestamp::InvalidTimestamp;
use crate::timestamp::opt_str_view;
use crate::timestamp::opt_ts_at_or_after;
use crate::timestamp::opt_ts_valid;
use crate::timestamp::parse_rfc3339;
use crate::timestamp::ts_str_at_or_after;
use crate::timestamp::ts_str_valid;

verus! {

/// The outcome a review left on a pull request.
#[derive(Clone, Copy, PartialEq, Eq, Structural, Debug)]
pub enum ReviewState {
    Approved,
    Pending,
    Comment,
    RequestChanges,
    RequestReview,
    Unknown,
}

/// Who left a review: a known identity, or nobody attributable.
pub enum Reviewer {
    Identified(String),
    Anonymous,
}

impl Clone for Reviewer {
    fn clone(&self) -> (r: Self)
        ensures
            reviewer_email(r) == reviewer_email(*self),
    {
        match self {
            Reviewer::Identified(email) => Reviewer::Identified(email.clone()),
            Reviewer::Anonymous => Reviewer::Anonymous,
        }
    }
}

/// The email behind a review's author, if any.
pub open spec fn reviewer_email(r: Reviewer) -> Option<Seq<char>> {
    match r {
        Reviewer::Identified(email) => Some(email@),
        Reviewer::Anonymous => None,
    }
}

/// One review on a pull request.
pub struct Review {
    pub user: Reviewer,
    pub state: ReviewState,
    pub comments_count: usize,
}

pub ghost struct ReviewView {
    pub user: Option<Seq<char>>,
    pub state: ReviewState,
    pub comments_count: int,
}

impl View for Review {
    type V = ReviewView;

    open spec fn view(&self) -> ReviewView {
        ReviewView {
            user: reviewer_email(self.user),
            state: self.state,
            comments_count: self.comments_count as int,
        }
    }
}

impl Clone for Review {
    fn clone(&self) -> (r: Self)
        ensures
            r@ == self@,
    {
        Review {
            user: self.user.clone(),
            state: self.state,
            comments_count: self.comments_count,
        }
    }
}

/// The request itself: author identity and lifecycle timestamps.  A pull
/// request always has a creation time; it may be open (neither merged nor
/// closed) or closed without having been merged.
pub struct PullRequestInfo {
    pub author_email: String,
    pub created_at: String,
    pub merged_at: Option<String>,
    pub closed_at: Option<String>,
}

pub ghost struct PullRequestInfoView {
    pub author_email: Seq<char>,
    pub created_at: Seq<char>,
    pub merged_at: Option<Seq<char>>,
    pub closed_at: Option<Seq<char>>,
}

impl View for PullRequestInfo {
    type V = PullRequestInfoView;

    open spec fn view(&self) -> PullRequestInfoView {
        PullRequestInfoView {
            author_email: self.author_email@,
            created_at: self.created_at@,
            merged_at: opt_str_view(self.merged_at),
            closed_at: opt_str_view(self.closed_at),
        }
    }
}

impl Clone for PullRequestInfo {
    fn clone(&self) -> (r: Self)
        ensures
            r@ == self@,
    {
        PullRequestInfo {
            author_email: self.author_email.clone(),
            created_at: self.created_at.clone(),
            merged_at: clone_opt_string(&self.merged_at),
            closed_at: clone_opt_string(&self.closed_at),
        }
    }
}

fn clone_opt_string(o: &Option<String>) -> (r: Option<String>)
    ensures
        opt_str_view(r) == opt_str_view(*o),
{
    match o {
        Some(s) => Some(s.clone()),
        None => None,
    }
}

/// A pull request paired with its full review list.
pub struct PullRequest {
    pub request: PullRequestInfo,
    pub reviews: Vec<Review>,
}

pub ghost struct PullRequestView {
    pub request: PullRequestInfoView,
    pub reviews: Seq<ReviewView>,
}

impl View for PullRequest {
    type V = PullRequestView;

    open spec fn view(&self) -> PullRequestView {
        PullRequestView {
            request: self.request@,
            reviews: review_views(self.reviews@),
        }
    }
}

impl Clone for PullRequest {
    fn clone(&self) -> (r: Self)
        ensures
            r@ == self@,
    {
        let mut reviews: Vec<Review> = Vec::new();
        let mut i: usize = 0;
        while i < self.reviews.len()
            invariant
                i <= self.reviews.len(),
                reviews@.len() == i,
                forall|k: int| 0 <= k < i ==> reviews@[k]@ == self.reviews@[k]@,
            decreases self.reviews.len() - i,
        {
            reviews.push(self.reviews[i].clone());
            i = i + 1;
        }
        proof {
            assert(review_views(reviews@) =~= review_views(self.reviews@));
        }
        PullRequest { request: self.request.clone(), reviews }
    }
}

impl PullRequest {
    pub fn new(request: PullRequestInfo, reviews: Vec<Review>) -> (r: Self)
        ensures
            r.request == request,
            r.reviews == reviews,
    {
        PullRequest { request, reviews }
    }
}

/// The views of a list of reviews.
pub open spec fn review_views(rs: Seq<Review>) -> Seq<ReviewView> {
    rs.map_values(|r: Review| r@)
}

/// The views of a list of pull requests.
pub open spec fn pull_request_views(ps: Seq<PullRequest>) -> Seq<PullRequestView> {
    ps.map_values(|p: PullRequest| p@)
}

/// All three lifecycle timestamps of a request denote instants (the two
/// optional ones whenever they are present).
pub open spec fn pr_times_valid(p: PullRequestInfoView) -> bool {
    ts_str_valid(p.created_at) && opt_ts_valid(p.merged_at) && opt_ts_valid(p.closed_at)
}

/// `s` is a present timestamp of `p` that denotes no instant.
pub open spec fn invalid_time_of(p: PullRequestInfoView, s: Seq<char>) -> bool {
    ||| (s == p.created_at && !ts_str_valid(p.created_at))
    ||| (p.merged_at == Some(s) && !ts_str_valid(s))
    ||| (p.closed_at == Some(s) && !ts_str_valid(s))
}

/// A request touches the span starting at `since`: it was created, merged
/// or closed at or after that instant.
pub open spec fn pr_recent(p: PullRequestInfoView, since: int) -> bool {
    ||| ts_str_at_or_after(p.created_at, since)
    ||| opt_ts_at_or_after(p.merged_at, since)
    ||| opt_ts_at_or_after(p.closed_at, since)
}

/// The page-filter rule as a predicate on one pull request.
pub open spec fn recent_pred(since: int) -> spec_fn(PullRequestView) -> bool {
    |p: PullRequestView| pr_recent(p.request, since)
}

/// Whether an optional textual timestamp denotes an instant at or after
/// `since`; an absent one does not, and a present one that denotes no
/// instant is handed back as the fatal condition it is.
pub fn datetime_more_since(datetime: &Option<String>, since: i64) -> (r: Result<
    bool,
    InvalidTimestamp,
>)
    ensures
        match r {
            Ok(b) => opt_ts_valid(opt_str_view(*datetime)) && b == opt_ts_at_or_after(
                opt_str_view(*datetime),
                since as int,
            ),
            Err(e) => !opt_ts_valid(opt_str_view(*datetime)) && opt_str_view(*datetime) == Some(
                e.timestamp@,
            ),
        },
{
    match datetime {
        None => Ok(false),
        Some(text) => match parse_rfc3339(text.as_str()) {
            Some(n) => Ok(n >= since),
            None => Err(InvalidTimestamp::new(text.clone())),
        },
    }
}

/// Validate one request's three timestamps, handing back the first piece
/// of text that denotes no instant.
pub fn check_request_times(p: &PullRequestInfo) -> (r: Result<(), InvalidTimestamp>)
    ensures
        match r {
            Ok(()) => pr_times_valid(p@),
            Err(e) => !pr_times_valid(p@) && invalid_time_of(p@, e.timestamp@),
        },
{
    if parse_rfc3339(p.created_at.as_str()).is_none() {
        return Err(InvalidTimestamp::new(p.created_at.clone()));
    }
    if let Some(merged) = &p.merged_at {
        if parse_rfc3339(merged.as_str()).is_none() {
            return Err(InvalidTimestamp::new(merged.clone()));
        }
    }
    if let Some(closed) = &p.closed_at {
        if parse_rfc3339(closed.as_str()).is_none() {
            return Err(InvalidTimestamp::new(closed.clone()));
        }
    }
    Ok(())
}

/// The page-filter rule of the pull-request reader: keep the requests that
/// touch the span starting at `since`.  Kept requests stay in page order.
/// A present timestamp that denotes no instant aborts the fetch.
pub fn select_recent_pull_requests(page: &Vec<PullRequest>, since: i64) -> (r: Result<
    Vec<PullRequest>,
    InvalidTimestamp,
>)
    ensures
        match r {
            Ok(kept) => {
                &&& forall|k: int|
                    0 <= k < page@.len() ==> pr_times_valid(#[trigger] page@[k]@.request)
                &&& pull_request_views(kept@) == pull_request_views(page@).filter(
                    recent_pred(since as int),
                )
            },
            Err(e) => exists|k: int|
                0 <= k < page@.len() && invalid_time_of(#[trigger] page@[k]@.request, e.timestamp@),
        },
{
    broadcast use vstd::seq_lib::group_filter_ensures;

    let mut kept: Vec<PullRequest> = Vec::new();
    let mut i: usize = 0;
    while i < page.len()
        invariant
            i <= page.len(),
            forall|k: int| 0 <= k < i ==> pr_times_valid(#[trigger] page@[k]@.request),
            pull_request_views(kept@) == pull_request_views(page@).take(i as int).filter(recent_pred(since as int)),
        decreases page.len() - i,
    {
        let pr = &page[i];
        if let Err(e) = check_request_times(&pr.request) {
            proof {
                assert(invalid_time_of(page@[i as int]@.request, e.timestamp@));
            }
            return Err(e);
        }
        let created = datetime_at_least(&pr.request.created_at, since);
        let merged = match datetime_more_since(&pr.request.merged_at, since) {
            Ok(b) => b,
            Err(_) => vstd::pervasive::unreached(),
        };
        let closed = match datetime_more_since(&pr.request.closed_at, since) {
            Ok(b) => b,
            Err(_) => vstd::pervasive::unreached(),
        };
        proof {
            assert(pull_request_views(page@).take(i as int + 1) =~= pull_request_views(
                page@,
            ).take(i as int).push(page@[i as int]@));
            pull_request_views(page@).take(i as int).lemma_filter_push(
                page@[i as int]@,
                recent_pred(since as int),
            );
            assert((created || merged || closed) == recent_pred(since as int)(page@[i as int]@));
        }
        if created || merged || closed {
            kept.push(pr.clone());
            proof {
                assert(pull_request_views(kept@) =~= pull_request_views(page@).take(
                    i as int,
                ).filter(recent_pred(since as int)).push(page@[i as int]@));
            }
        }
        i = i + 1;
    }
    proof {
        assert(pull_request_views(page@).take(page@.len() as int) =~= pull_request_views(page@));
    }
    Ok(kept)
}

/// A present textual timestamp is at or after `since`; never called on text
/// that denotes no instant.
fn datetime_at_least(text: &String, since: i64) -> (r: bool)
    requires
        ts_str_valid(text@),
    ensures
        r == ts_str_at_or_after(text@, since as int),
{
    match parse_rfc3339(text.as_str()) {
        Some(n) => n >= since,
        None => vstd::pervasive::unreached(),
    }
}

} // verus!
