use wtftoday::error::AppError;
use wtftoday::models::github::{
    GitHubApiIssue, GitHubApiLabel, GitHubApiNotification, GitHubApiRepository,
    GitHubApiSearchResult, GitHubApiSubject, GitHubApiUser, GitHubBriefData, GitHubIssue,
    GitHubNotification, GitHubPullRequest,
};
use wtftoday::services::github_service::{
    api_issue_to_issue, authorization_value, body_preview, collect_github_data,
    convert_api_url_to_html, current_user_url, extract_repo_from_url, issue_to_pr, issues_of,
    mentioned_issues_url, my_open_prs_url, notification_of, notifications_of, notifications_url,
    percent_encode, pull_requests_of, review_requests_url, search_url, user_of,
};
use wtftoday::text::{replace_text, split_text};

fn user() -> GitHubApiUser {
    GitHubApiUser {
        login: "octocat".to_string(),
        avatar_url: "https://avatars.example/u/1".to_string(),
        name: Some("The Octocat".to_string()),
    }
}

fn item(id: i64, body: Option<&str>, pull_request: bool) -> GitHubApiIssue {
    GitHubApiIssue {
        id,
        number: 42,
        title: format!("Item {}", id),
        state: "open".to_string(),
        user: user(),
        html_url: "https://github.com/rust-lang/rust/issues/42".to_string(),
        body: body.map(|b| b.to_string()),
        labels: vec![
            GitHubApiLabel { name: "bug".to_string(), color: "d73a4a".to_string() },
            GitHubApiLabel { name: "help wanted".to_string(), color: "008672".to_string() },
        ],
        pull_request,
    }
}

fn notification(url: Option<&str>) -> GitHubApiNotification {
    GitHubApiNotification {
        id: "n1".to_string(),
        repository: GitHubApiRepository { full_name: "rust-lang/rust".to_string() },
        subject: GitHubApiSubject {
            title: "Fix the thing".to_string(),
            subject_type: "PullRequest".to_string(),
            url: url.map(|u| u.to_string()),
        },
        reason: "review_requested".to_string(),
        unread: true,
        updated_at: "2024-01-15T12:00:00Z".to_string(),
    }
}

#[test]
fn search_address_percent_encodes_the_query() {
    assert_eq!(
        search_url("is:open a b"),
        "https://api.github.com/search/issues?q=is%3Aopen%20a%20b&sort=updated&order=desc&per_page=20"
    );
    assert_eq!(
        search_url("A-z_0.9~"),
        "https://api.github.com/search/issues?q=A-z_0.9~&sort=updated&order=desc&per_page=20"
    );
    assert_eq!(
        search_url("é/+"),
        "https://api.github.com/search/issues?q=%C3%A9%2F%2B&sort=updated&order=desc&per_page=20"
    );
}

#[test]
fn percent_encoding_agrees_with_the_urlencoding_crate() {
    let every_ascii: String = (0u8..128).map(|b| b as char).collect();
    let samples = [
        "",
        "plain",
        "A-z_0.9~",
        "is:open is:pr review-requested:octo cat archived:false",
        "100% sure? yes/no & maybe=+",
        "é ü 日本語 🎉",
        every_ascii.as_str(),
    ];
    for sample in samples {
        assert_eq!(percent_encode(sample), urlencoding::encode(sample).into_owned());
    }
    assert_eq!(percent_encode("a b"), "a%20b");
    assert_eq!(percent_encode("\u{0}\u{f}\u{10}\u{7f}"), "%00%0F%10%7F");
    assert_eq!(percent_encode("ÿ"), "%C3%BF");
}

#[test]
fn query_addresses_name_the_user() {
    assert_eq!(
        review_requests_url("octo cat"),
        "https://api.github.com/search/issues?q=is%3Aopen%20is%3Apr%20review-requested%3Aocto%20cat%20archived%3Afalse&sort=updated&order=desc&per_page=20"
    );
    assert_eq!(
        my_open_prs_url("octocat"),
        "https://api.github.com/search/issues?q=is%3Aopen%20is%3Apr%20author%3Aoctocat%20archived%3Afalse&sort=updated&order=desc&per_page=20"
    );
    assert_eq!(
        mentioned_issues_url("octocat"),
        "https://api.github.com/search/issues?q=is%3Aopen%20mentions%3Aoctocat%20archived%3Afalse&sort=updated&order=desc&per_page=20"
    );
    assert_eq!(current_user_url(), "https://api.github.com/user");
    assert_eq!(notifications_url(), "https://api.github.com/notifications?per_page=30");
    assert_eq!(authorization_value("SECRET-REDACTED"), "Bearer SECRET-REDACTED");
}

#[test]
fn repo_is_the_fourth_and_fifth_piece() {
    assert_eq!(extract_repo_from_url("https://github.com/owner/repo/pull/7"), "owner/repo");
    assert_eq!(extract_repo_from_url("https://github.com/owner/repo"), "owner/repo");
    assert_eq!(extract_repo_from_url("https://github.com/owner/"), "owner/");
    assert_eq!(extract_repo_from_url("https://github.com/owner"), "");
    assert_eq!(extract_repo_from_url(""), "");
    assert_eq!(extract_repo_from_url("a/b/c/d/e/f"), "d/e");
}

#[test]
fn split_agrees_with_the_standard_library() {
    for text in ["", "/", "a", "a/b", "/a//b/", "https://github.com/o/r", "é/ü/"] {
        let expected: Vec<String> = text.split('/').map(|p| p.to_string()).collect();
        assert_eq!(split_text(text, '/'), expected);
    }
}

#[test]
fn replace_agrees_with_the_standard_library() {
    let cases = [
        ("", "ab", "x"),
        ("ab", "ab", "x"),
        ("aab", "ab", "x"),
        ("ababab", "aba", "-"),
        ("aaaa", "aa", "a"),
        ("/pulls/pulls/", "/pulls/", "/pull/"),
        ("héllo wörld", "ö", "oe"),
        ("short", "much longer pattern", "x"),
    ];
    for (text, from, to) in cases {
        assert_eq!(replace_text(text, from, to), text.replace(from, to));
    }
    assert_eq!(replace_text("abc", "", "x"), "abc");
}

#[test]
fn api_address_becomes_page_address() {
    assert_eq!(
        convert_api_url_to_html("https://api.github.com/repos/owner/repo/pulls/12"),
        "https://github.com/owner/repo/pull/12"
    );
    assert_eq!(
        convert_api_url_to_html("https://api.github.com/repos/owner/repo/issues/3"),
        "https://github.com/owner/repo/issues/3"
    );
    assert_eq!(convert_api_url_to_html("https://example.org/x"), "https://example.org/x");
}

#[test]
fn long_bodies_are_cut_to_a_preview() {
    let exactly: String = "x".repeat(200);
    assert_eq!(body_preview(&exactly), exactly);
    let longer: String = "y".repeat(201);
    let preview = body_preview(&longer);
    assert_eq!(preview.len(), 200);
    assert_eq!(preview, format!("{}...", "y".repeat(197)));
    assert_eq!(body_preview(""), "");
}

#[test]
fn preview_length_is_counted_in_bytes() {
    // 100 two-byte characters are 200 bytes: not cut.
    let fits: String = "é".repeat(100);
    assert_eq!(body_preview(&fits), fits);
    // 50 two-byte characters and 150 letters are 250 bytes: cut after the
    // 197th byte, which is a character boundary.
    let mixed = format!("{}{}", "é".repeat(50), "a".repeat(150));
    assert_eq!(body_preview(&mixed), format!("{}{}...", "é".repeat(50), "a".repeat(97)));
    assert_eq!(body_preview(&mixed), format!("{}...", &mixed[..197]));
}

#[test]
fn preview_is_cut_before_a_character_that_straddles_the_limit() {
    // 201 two-byte characters: byte 197 lies inside the 99th character.
    let accented: String = "é".repeat(201);
    assert_eq!(body_preview(&accented), format!("{}...", "é".repeat(98)));
    let wide: String = "日".repeat(100);
    assert_eq!(body_preview(&wide), format!("{}...", "日".repeat(65)));
}

#[test]
fn search_result_becomes_a_pull_request() {
    let pr: GitHubPullRequest = issue_to_pr(&item(5, Some("body"), true));
    assert_eq!(pr.id, 5);
    assert_eq!(pr.repo_full_name, "rust-lang/rust");
    assert_eq!(pr.number, 42);
    assert_eq!(pr.title, "Item 5");
    assert_eq!(pr.state, "open");
    assert!(!pr.draft);
    assert_eq!(pr.user_login, "octocat");
    assert_eq!(pr.user_avatar_url.as_deref(), Some("https://avatars.example/u/1"));
    assert_eq!(pr.html_url, "https://github.com/rust-lang/rust/issues/42");
    assert_eq!(pr.created_at, "");
    assert_eq!(pr.updated_at, "");
    assert!(pr.requested_reviewers.is_empty());
    assert_eq!(pr.labels.len(), 2);
    assert_eq!(pr.labels[0].name, "bug");
    assert_eq!(pr.labels[1].color, "008672");
    assert_eq!(pr.review_status, None);
}

#[test]
fn search_result_becomes_an_issue() {
    let long_body = "z".repeat(300);
    let issue: GitHubIssue = api_issue_to_issue(&item(6, Some(&long_body), false));
    assert_eq!(issue.id, 6);
    assert_eq!(issue.repo_full_name, "rust-lang/rust");
    assert_eq!(issue.title, "Item 6");
    assert_eq!(issue.user_login, "octocat");
    assert_eq!(issue.body_preview, Some(format!("{}...", "z".repeat(197))));
    assert_eq!(issue.labels.len(), 2);
    assert_eq!(api_issue_to_issue(&item(7, None, false)).body_preview, None);
}

#[test]
fn pull_requests_and_issues_are_told_apart() {
    let result = GitHubApiSearchResult {
        total_count: 4,
        items: vec![
            item(1, None, true),
            item(2, None, false),
            item(3, None, true),
            item(4, None, false),
        ],
    };
    let prs: Vec<i64> = pull_requests_of(&result.items).iter().map(|p| p.id).collect();
    let issues: Vec<i64> = issues_of(&result.items).iter().map(|i| i.id).collect();
    assert_eq!(prs, vec![1, 3]);
    assert_eq!(issues, vec![2, 4]);
    assert!(pull_requests_of(&Vec::new()).is_empty());
}

#[test]
fn notification_gets_a_page_address() {
    let shown: GitHubNotification =
        notification_of(&notification(Some("https://api.github.com/repos/o/r/pulls/9")));
    assert_eq!(shown.id, "n1");
    assert_eq!(shown.repo_full_name, "rust-lang/rust");
    assert_eq!(shown.subject_title, "Fix the thing");
    assert_eq!(shown.subject_type, "PullRequest");
    assert_eq!(shown.reason, "review_requested");
    assert!(shown.unread);
    assert_eq!(shown.updated_at, "2024-01-15T12:00:00Z");
    assert_eq!(shown.url.as_deref(), Some("https://github.com/o/r/pull/9"));
    let all = notifications_of(&vec![notification(None), notification(Some("x"))]);
    assert_eq!(all.len(), 2);
    assert_eq!(all[0].url, None);
    assert_eq!(all[1].url.as_deref(), Some("x"));
}

#[test]
fn reported_user_is_carried_over() {
    let shown = user_of(user());
    assert_eq!(shown.login, "octocat");
    assert_eq!(shown.avatar_url, "https://avatars.example/u/1");
    assert_eq!(shown.name.as_deref(), Some("The Octocat"));
}

#[test]
fn a_failed_query_contributes_nothing() {
    let down = || AppError::Network("down".to_string());
    let data: GitHubBriefData = collect_github_data(
        Ok(vec![issue_to_pr(&item(1, None, true))]),
        Err(down()),
        Ok(vec![api_issue_to_issue(&item(2, None, false))]),
        Err(down()),
        77,
    );
    assert_eq!(data.prs_to_review.len(), 1);
    assert!(data.my_open_prs.is_empty());
    assert_eq!(data.mentioned_issues.len(), 1);
    assert!(data.notifications.is_empty());
    assert_eq!(data.last_updated, Some(77));
}

#[test]
fn default_github_data_is_empty() {
    let data = GitHubBriefData::default();
    assert!(data.prs_to_review.is_empty());
    assert!(data.my_open_prs.is_empty());
    assert!(data.mentioned_issues.is_empty());
    assert!(data.notifications.is_empty());
    assert_eq!(data.last_updated, None);
}
