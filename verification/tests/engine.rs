//! End-to-end aggregation scenarios.

use sprint_metrics::analysis::DataAnalysis;
use sprint_metrics::commit::Commit;
use sprint_metrics::pull_request::PullRequest;
use sprint_metrics::pull_request::PullRequestInfo;
use sprint_metrics::pull_request::Review;
use sprint_metrics::pull_request::ReviewState;
use sprint_metrics::pull_request::Reviewer;
use sprint_metrics::repository::Repository;
use sprint_metrics::sprint::Sprint;
use sprint_metrics::user::User;

const NANOS: i64 = 1_000_000_000;
const S1_SINCE: i64 = 1704067200 * NANOS; // 2024-01-01T00:00:00Z
const S1_UNTIL: i64 = 1705190400 * NANOS; // 2024-01-14T00:00:00Z
const JAN_05: i64 = 1704412800 * NANOS; // 2024-01-05T00:00:00Z
const S2_SINCE: i64 = 1705708800 * NANOS; // 2024-01-20T00:00:00Z
const S2_UNTIL: i64 = 1707868800 * NANOS; // 2024-02-14T00:00:00Z

fn s1() -> Sprint {
    Sprint::new("S1".to_string(), S1_SINCE, S1_UNTIL)
}

fn s2() -> Sprint {
    Sprint::new("S2".to_string(), S2_SINCE, S2_UNTIL)
}

fn repo(name: &str) -> Repository {
    Repository::new(
        name.to_string(),
        format!("git@example.com:{name}.git"),
        "main".to_string(),
        "owner".to_string(),
    )
}

fn user(name: &str, emails: &[&str]) -> User {
    User::new(
        name.to_string(),
        format!("https://avatars.example.com/{name}"),
        "engineer".to_string(),
        vec!["core".to_string()],
        emails.iter().map(|e| e.to_string()).collect(),
    )
}

fn commit(email: &str, files: usize, ins: usize, del: usize, datetime: i64) -> Commit {
    Commit::new(email.to_string(), "change".to_string(), files, ins, del, datetime)
}

fn pr(
    author: &str,
    created: &str,
    merged: Option<&str>,
    closed: Option<&str>,
    reviews: Vec<Review>,
) -> PullRequest {
    PullRequest::new(
        PullRequestInfo {
            author_email: author.to_string(),
            created_at: created.to_string(),
            merged_at: merged.map(|s| s.to_string()),
            closed_at: closed.map(|s| s.to_string()),
        },
        reviews,
    )
}

fn review(reviewer: Option<&str>, state: ReviewState, comments: usize) -> Review {
    Review {
        user: match reviewer {
            Some(e) => Reviewer::Identified(e.to_string()),
            None => Reviewer::Anonymous,
        },
        state,
        comments_count: comments,
    }
}

#[test]
fn commit_scenario_single_user_single_sprint() {
    let u = user("U", &["a@x.com"]);
    let mut data = DataAnalysis::new(vec![u], vec![s1()], vec![repo("r")]);
    data.insert_commits(&repo("r"), vec![commit("a@x.com", 3, 10, 2, JAN_05)]);
    data.insert_pull_request(&repo("r"), vec![]);

    let out = data.analyze_sprints().unwrap();
    assert_eq!(out.len(), 1);
    let (_, users) = &out[0];
    assert_eq!(users.len(), 1);
    let cell = &users[0].1;
    assert_eq!(cell.commits.files_changed, 3);
    assert_eq!(cell.commits.insertions, 10);
    assert_eq!(cell.commits.deletions, 2);
    assert_eq!(cell.commits.change_lines, 12);
    assert_eq!(cell.commits.commits, 1);
}

#[test]
fn created_and_merged_in_same_sprint_both_count() {
    let u = user("U", &["a@x.com"]);
    let mut data = DataAnalysis::new(vec![u], vec![s1()], vec![repo("r")]);
    data.insert_commits(&repo("r"), vec![]);
    data.insert_pull_request(
        &repo("r"),
        vec![pr(
            "a@x.com",
            "2024-01-03T00:00:00Z",
            Some("2024-01-10T00:00:00Z"),
            Some("2024-01-10T00:00:00Z"),
            vec![],
        )],
    );

    let out = data.analyze_sprints().unwrap();
    let cell = &out[0].1[0].1;
    assert_eq!(cell.pull_requests.create_pull_requests, 1);
    assert_eq!(cell.pull_requests.merged_pull_requests, 1);
    assert_eq!(cell.pull_requests.closed_pull_requests, 0);
}

#[test]
fn closed_without_merge_counts_reviews_and_discussions() {
    let author = user("A", &["author@x.com"]);
    let reviewer_u = user("R", &["rev@x.com"]);
    let mut data = DataAnalysis::new(
        vec![author, reviewer_u],
        vec![s1()],
        vec![repo("r")],
    );
    data.insert_commits(&repo("r"), vec![]);
    data.insert_pull_request(
        &repo("r"),
        vec![pr(
            "author@x.com",
            "2024-01-03T00:00:00Z",
            None,
            Some("2024-01-12T00:00:00Z"),
            vec![review(Some("rev@x.com"), ReviewState::Approved, 4)],
        )],
    );

    let out = data.analyze_sprints().unwrap();
    let author_cell = &out[0].1[0].1;
    assert_eq!(author_cell.pull_requests.closed_pull_requests, 1);
    assert_eq!(author_cell.pull_requests.merged_pull_requests, 0);
    assert_eq!(author_cell.pull_requests.received_discussions, 4);
    let reviewer_cell = &out[0].1[1].1;
    assert_eq!(reviewer_cell.pull_requests.approver_assigned, 1);
    assert_eq!(reviewer_cell.pull_requests.approver_conducted, 1);
    assert_eq!(reviewer_cell.pull_requests.approver_added_discussions, 4);
}

#[test]
fn cross_sprint_merge_counts_as_neither_merged_nor_a_closed_in_a() {
    // Merged inside S1, closed inside S2.
    let u = user("U", &["a@x.com"]);
    let mut data = DataAnalysis::new(vec![u], vec![s1(), s2()], vec![repo("r")]);
    data.insert_commits(&repo("r"), vec![]);
    data.insert_pull_request(
        &repo("r"),
        vec![pr(
            "a@x.com",
            "2023-11-01T00:00:00Z",
            Some("2024-01-10T00:00:00Z"),
            Some("2024-02-01T00:00:00Z"),
            vec![],
        )],
    );

    let out = data.analyze_sprints().unwrap();
    let cell_s1 = &out[0].1[0].1;
    let cell_s2 = &out[1].1[0].1;
    assert_eq!(cell_s1.pull_requests.merged_pull_requests, 0);
    assert_eq!(cell_s2.pull_requests.merged_pull_requests, 0);
    assert_eq!(cell_s1.pull_requests.closed_pull_requests, 0);
    assert_eq!(cell_s2.pull_requests.closed_pull_requests, 1);
}

#[test]
fn alias_union_combines_both_aliases() {
    let u = user("U", &["a@x.com", "b@x.com"]);
    let mut data = DataAnalysis::new(vec![u], vec![s1()], vec![repo("r")]);
    data.insert_commits(
        &repo("r"),
        vec![
            commit("a@x.com", 1, 5, 0, JAN_05),
            commit("b@x.com", 2, 0, 7, JAN_05),
        ],
    );
    data.insert_pull_request(&repo("r"), vec![]);

    let out = data.analyze_sprints().unwrap();
    let cell = &out[0].1[0].1;
    assert_eq!(cell.commits.commits, 2);
    assert_eq!(cell.commits.files_changed, 3);
    assert_eq!(cell.commits.insertions, 5);
    assert_eq!(cell.commits.deletions, 7);
    assert_eq!(cell.commits.change_lines, 12);
}

#[test]
fn commit_order_does_not_change_any_cell() {
    let u = user("U", &["a@x.com"]);
    let c1 = commit("a@x.com", 1, 5, 0, JAN_05);
    let c2 = commit("a@x.com", 2, 0, 7, JAN_05);
    let c3 = commit("other@x.com", 9, 9, 9, JAN_05);

    let mut first = DataAnalysis::new(vec![u.clone()], vec![s1()], vec![repo("r")]);
    first.insert_commits(&repo("r"), vec![c1.clone(), c2.clone(), c3.clone()]);
    first.insert_pull_request(&repo("r"), vec![]);

    let mut second = DataAnalysis::new(vec![u], vec![s1()], vec![repo("r")]);
    second.insert_commits(&repo("r"), vec![c3, c2, c1]);
    second.insert_pull_request(&repo("r"), vec![]);

    let a = first.analyze_sprints().unwrap();
    let b = second.analyze_sprints().unwrap();
    let ca = &a[0].1[0].1.commits;
    let cb = &b[0].1[0].1.commits;
    assert_eq!(ca.files_changed, cb.files_changed);
    assert_eq!(ca.change_lines, cb.change_lines);
    assert_eq!(ca.insertions, cb.insertions);
    assert_eq!(ca.deletions, cb.deletions);
    assert_eq!(ca.commits, cb.commits);
}

#[test]
fn output_holds_every_sprint_and_every_user_zero_filled() {
    let u1 = user("U1", &["a@x.com"]);
    let u2 = user("U2", &["b@x.com"]);
    let data = DataAnalysis::new(vec![u1, u2], vec![s1(), s2()], vec![]);

    let out = data.analyze_sprints().unwrap();
    assert_eq!(out.len(), 2);
    assert_eq!(out[0].0.name, "S1");
    assert_eq!(out[1].0.name, "S2");
    for (_, users) in &out {
        assert_eq!(users.len(), 2);
        assert_eq!(users[0].0.username, "U1");
        assert_eq!(users[1].0.username, "U2");
        for (_, cell) in users {
            assert_eq!(cell.commits.commits, 0);
            assert_eq!(cell.commits.change_lines, 0);
            assert_eq!(cell.pull_requests.create_pull_requests, 0);
            assert_eq!(cell.pull_requests.merged_pull_requests, 0);
            assert_eq!(cell.pull_requests.closed_pull_requests, 0);
            assert_eq!(cell.pull_requests.received_discussions, 0);
            assert_eq!(cell.pull_requests.approver_assigned, 0);
            assert_eq!(cell.pull_requests.approver_conducted, 0);
            assert_eq!(cell.pull_requests.approver_added_discussions, 0);
        }
    }
}

#[test]
fn repeated_reviews_add_comments_but_assign_once() {
    let author = user("A", &["author@x.com"]);
    let reviewer_u = user("R", &["rev@x.com"]);
    let mut data = DataAnalysis::new(
        vec![author, reviewer_u],
        vec![s1()],
        vec![repo("r")],
    );
    data.insert_commits(&repo("r"), vec![]);
    data.insert_pull_request(
        &repo("r"),
        vec![pr(
            "author@x.com",
            "2024-01-03T00:00:00Z",
            None,
            Some("2024-01-12T00:00:00Z"),
            vec![
                review(Some("rev@x.com"), ReviewState::RequestChanges, 3),
                review(Some("rev@x.com"), ReviewState::Comment, 2),
                review(None, ReviewState::Approved, 5),
            ],
        )],
    );

    let out = data.analyze_sprints().unwrap();
    let reviewer_cell = &out[0].1[1].1;
    assert_eq!(reviewer_cell.pull_requests.approver_assigned, 1);
    assert_eq!(reviewer_cell.pull_requests.approver_conducted, 1);
    assert_eq!(reviewer_cell.pull_requests.approver_added_discussions, 5);
    let author_cell = &out[0].1[0].1;
    assert_eq!(author_cell.pull_requests.received_discussions, 10);
}

#[test]
fn non_counting_review_states_do_not_conduct() {
    let author = user("A", &["author@x.com"]);
    let reviewer_u = user("R", &["rev@x.com"]);
    let mut data = DataAnalysis::new(
        vec![author, reviewer_u],
        vec![s1()],
        vec![repo("r")],
    );
    data.insert_commits(&repo("r"), vec![]);
    data.insert_pull_request(
        &repo("r"),
        vec![pr(
            "author@x.com",
            "2024-01-03T00:00:00Z",
            None,
            Some("2024-01-12T00:00:00Z"),
            vec![
                review(Some("rev@x.com"), ReviewState::Pending, 1),
                review(Some("rev@x.com"), ReviewState::Comment, 1),
                review(Some("rev@x.com"), ReviewState::RequestReview, 1),
                review(Some("rev@x.com"), ReviewState::Unknown, 1),
            ],
        )],
    );

    let out = data.analyze_sprints().unwrap();
    let reviewer_cell = &out[0].1[1].1;
    assert_eq!(reviewer_cell.pull_requests.approver_assigned, 1);
    assert_eq!(reviewer_cell.pull_requests.approver_conducted, 0);
    assert_eq!(reviewer_cell.pull_requests.approver_added_discussions, 4);
}

#[test]
fn commit_window_bounds_are_inclusive_to_the_nanosecond() {
    let u = user("U", &["a@x.com"]);
    let mut data = DataAnalysis::new(vec![u], vec![s1()], vec![repo("r")]);
    data.insert_commits(
        &repo("r"),
        vec![
            commit("a@x.com", 1, 1, 1, S1_SINCE),
            commit("a@x.com", 1, 1, 1, S1_UNTIL),
            commit("a@x.com", 1, 1, 1, S1_SINCE - 1),
            commit("a@x.com", 1, 1, 1, S1_UNTIL + 1),
        ],
    );
    data.insert_pull_request(&repo("r"), vec![]);

    let out = data.analyze_sprints().unwrap();
    assert_eq!(out[0].1[0].1.commits.commits, 2);
}

#[test]
fn overlapping_sprints_each_count_the_commit() {
    let u = user("U", &["a@x.com"]);
    let wide = Sprint::new("wide".to_string(), S1_SINCE, S2_UNTIL);
    let mut data = DataAnalysis::new(vec![u], vec![s1(), wide], vec![repo("r")]);
    data.insert_commits(&repo("r"), vec![commit("a@x.com", 1, 2, 3, JAN_05)]);
    data.insert_pull_request(&repo("r"), vec![]);

    let out = data.analyze_sprints().unwrap();
    assert_eq!(out[0].1[0].1.commits.commits, 1);
    assert_eq!(out[1].1[0].1.commits.commits, 1);
}

#[test]
fn malformed_stored_timestamp_aborts_the_analysis() {
    let u = user("U", &["a@x.com"]);
    let mut data = DataAnalysis::new(vec![u], vec![s1()], vec![repo("r")]);
    data.insert_commits(&repo("r"), vec![]);
    data.insert_pull_request(
        &repo("r"),
        vec![pr(
            "a@x.com",
            "2024-01-03T00:00:00Z",
            Some("never"),
            None,
            vec![],
        )],
    );

    let r = data.analyze_sprints();
    match r {
        Err(e) => assert_eq!(e.timestamp, "never"),
        Ok(_) => panic!("a malformed timestamp must abort the run"),
    }
}
