//! The event store, the catalog helpers and the counter records.

use sprint_metrics::analysis::CommitAnalyzed;
use sprint_metrics::analysis::DataAnalysis;
use sprint_metrics::analysis::PullRequestAnalyzed;
use sprint_metrics::analysis::UserDataAnalyzed;
use sprint_metrics::calc_min_since;
use sprint_metrics::commit::Commit;
use sprint_metrics::datetime_at_or_after;
use sprint_metrics::find_teams;
use sprint_metrics::pull_request::PullRequest;
use sprint_metrics::pull_request::PullRequestInfo;
use sprint_metrics::pull_request::select_recent_pull_requests;
use sprint_metrics::repository::Repository;
use sprint_metrics::sprint::Sprint;
use sprint_metrics::user::User;

const NANOS: i64 = 1_000_000_000;
const S1_SINCE: i64 = 1704067200 * NANOS; // 2024-01-01T00:00:00Z

fn repo(name: &str) -> Repository {
    Repository::new(
        name.to_string(),
        format!("git@example.com:{name}.git"),
        "main".to_string(),
        "owner".to_string(),
    )
}

fn commit(email: &str, datetime: i64) -> Commit {
    Commit::new(email.to_string(), "change".to_string(), 1, 1, 1, datetime)
}

fn plain_pr(created: &str, merged: Option<&str>, closed: Option<&str>) -> PullRequest {
    PullRequest::new(
        PullRequestInfo {
            author_email: "a@x.com".to_string(),
            created_at: created.to_string(),
            merged_at: merged.map(|s| s.to_string()),
            closed_at: closed.map(|s| s.to_string()),
        },
        vec![],
    )
}

#[test]
fn same_key_compares_every_field() {
    let a = repo("r");
    let b = repo("r");
    assert!(a.same_key(&b));
    let c = Repository::new(
        "r".to_string(),
        "git@example.com:r.git".to_string(),
        "develop".to_string(),
        "owner".to_string(),
    );
    assert!(!a.same_key(&c));
}

#[test]
fn insert_commits_replaces_the_entry_of_the_same_repository() {
    let mut data = DataAnalysis::new(vec![], vec![], vec![repo("r"), repo("q")]);
    data.insert_commits(&repo("r"), vec![commit("a@x.com", 1)]);
    data.insert_commits(&repo("q"), vec![commit("b@x.com", 2)]);
    data.insert_commits(&repo("r"), vec![commit("c@x.com", 3), commit("d@x.com", 4)]);

    assert_eq!(data.commits.len(), 2);
    assert_eq!(data.commits[0].0.name, "r");
    assert_eq!(data.commits[0].1.len(), 2);
    assert_eq!(data.commits[0].1[0].email, "c@x.com");
    assert_eq!(data.commits[1].0.name, "q");
    assert_eq!(data.commits[1].1.len(), 1);
}

#[test]
fn insert_pull_request_keeps_other_repositories() {
    let mut data = DataAnalysis::new(vec![], vec![], vec![repo("r"), repo("q")]);
    data.insert_pull_request(&repo("r"), vec![plain_pr("2024-01-03T00:00:00Z", None, None)]);
    data.insert_pull_request(&repo("q"), vec![]);
    data.insert_pull_request(&repo("q"), vec![plain_pr("2024-01-04T00:00:00Z", None, None)]);

    assert_eq!(data.pull_requests.len(), 2);
    assert_eq!(data.pull_requests[0].0.name, "r");
    assert_eq!(data.pull_requests[0].1.len(), 1);
    assert_eq!(data.pull_requests[1].0.name, "q");
    assert_eq!(data.pull_requests[1].1.len(), 1);
    assert_eq!(data.pull_requests[1].1[0].request.created_at, "2024-01-04T00:00:00Z");
}

#[test]
fn find_teams_keeps_first_occurrence_order() {
    let mk = |name: &str, teams: &[&str]| {
        User::new(
            name.to_string(),
            String::new(),
            "engineer".to_string(),
            teams.iter().map(|t| t.to_string()).collect(),
            vec![],
        )
    };
    let users = vec![
        mk("a", &["core", "infra"]),
        mk("b", &["infra", "web"]),
        mk("c", &["core"]),
    ];
    let teams = find_teams(&users);
    assert_eq!(teams, vec!["core".to_string(), "infra".to_string(), "web".to_string()]);
}

#[test]
fn calc_min_since_returns_the_earliest_start() {
    let sprints = vec![
        Sprint::new("S2".to_string(), S1_SINCE + 100, S1_SINCE + 200),
        Sprint::new("S1".to_string(), S1_SINCE, S1_SINCE + 50),
        Sprint::new("S3".to_string(), S1_SINCE + 7, S1_SINCE + 9),
    ];
    assert_eq!(calc_min_since(&sprints), S1_SINCE);
}

#[test]
fn from_commits_sums_every_counter() {
    let commits = vec![
        Commit::new("a@x.com".to_string(), "one".to_string(), 3, 10, 2, 1),
        Commit::new("b@x.com".to_string(), "two".to_string(), 1, 4, 6, 2),
    ];
    let folded = CommitAnalyzed::from_commits(&commits);
    assert_eq!(folded.files_changed, 4);
    assert_eq!(folded.insertions, 14);
    assert_eq!(folded.deletions, 8);
    assert_eq!(folded.change_lines, 22);
    assert_eq!(folded.commits, 2);
}

#[test]
fn default_counters_are_zero() {
    let c = CommitAnalyzed::default();
    assert_eq!(c.files_changed, 0);
    assert_eq!(c.change_lines, 0);
    assert_eq!(c.insertions, 0);
    assert_eq!(c.deletions, 0);
    assert_eq!(c.commits, 0);
    let p = PullRequestAnalyzed::default();
    assert_eq!(p.create_pull_requests, 0);
    assert_eq!(p.merged_pull_requests, 0);
    assert_eq!(p.closed_pull_requests, 0);
    assert_eq!(p.received_discussions, 0);
    assert_eq!(p.approver_assigned, 0);
    assert_eq!(p.approver_conducted, 0);
    assert_eq!(p.approver_added_discussions, 0);
}

#[test]
fn counter_records_keep_their_fields() {
    let c = CommitAnalyzed::new(1, 2, 3, 4, 5);
    let p = PullRequestAnalyzed::new(1, 2, 3, 4, 5, 6, 7);
    let cell = UserDataAnalyzed::new(c, p);
    assert_eq!(cell.commits.change_lines, 2);
    assert_eq!(cell.pull_requests.approver_added_discussions, 7);
}

#[test]
fn select_recent_keeps_requests_touching_the_span() {
    let page = vec![
        plain_pr("2023-12-01T00:00:00Z", None, None),
        plain_pr("2024-01-03T00:00:00Z", None, None),
        plain_pr("2023-12-01T00:00:00Z", None, Some("2024-01-05T00:00:00Z")),
    ];
    let kept = select_recent_pull_requests(&page, S1_SINCE).unwrap();
    assert_eq!(kept.len(), 2);
    assert_eq!(kept[0].request.created_at, "2024-01-03T00:00:00Z");
    assert_eq!(kept[1].request.closed_at, Some("2024-01-05T00:00:00Z".to_string()));
}

#[test]
fn select_recent_hands_back_malformed_text() {
    let page = vec![plain_pr("garbage", None, None)];
    let r = select_recent_pull_requests(&page, S1_SINCE);
    match r {
        Err(e) => assert_eq!(e.timestamp, "garbage"),
        Ok(_) => panic!("malformed text must abort the page"),
    }
}

#[test]
fn history_filter_keeps_instants_at_or_after_the_bound() {
    assert!(datetime_at_or_after(S1_SINCE, S1_SINCE));
    assert!(datetime_at_or_after(S1_SINCE + 1, S1_SINCE));
    assert!(!datetime_at_or_after(S1_SINCE - 1, S1_SINCE));
}
