//! Code-review signals: what the brief shows, and the shapes in which the
//! remote API reports them.

use vstd::prelude::*;

verus! {

/// A user of the code host.
#[derive(Debug, Clone)]
pub struct GitHubUser {
    pub login: String,
    pub avatar_url: String,
    pub name: Option<String>,
}

/// A label on an issue or pull request.
#[derive(Debug, Clone)]
pub struct GitHubLabel {
    pub name: String,
    pub color: String,
}

/// A pull request as the brief shows it.
#[derive(Debug, Clone)]
pub struct GitHubPullRequest {
    pub id: i64,
    pub repo_full_name: String,
    pub number: i32,
    pub title: String,
    pub state: String,
    pub draft: bool,
    pub user_login: String,
    pub user_avatar_url: Option<String>,
    pub html_url: String,
    pub created_at: String,
    pub updated_at: String,
    pub requested_reviewers: Vec<String>,
    pub labels: Vec<GitHubLabel>,
    pub review_status: Option<String>,
}

/// An issue as the brief shows it.
#[derive(Debug, Clone)]
pub struct GitHubIssue {
    pub id: i64,
    pub repo_full_name: String,
    pub number: i32,
    pub title: String,
    pub state: String,
    pub user_login: String,
    pub html_url: String,
    pub body_preview: Option<String>,
    pub labels: Vec<GitHubLabel>,
}

/// A notification as the brief shows it.
#[derive(Debug, Clone)]
pub struct GitHubNotification {
    pub id: String,
    pub repo_full_name: String,
    pub subject_title: String,
    pub subject_type: String,
    pub reason: String,
    pub unread: bool,
    pub updated_at: String,
    pub url: Option<String>,
}

/// Everything the code-review source contributes to the brief.
#[derive(Debug, Clone)]
pub struct GitHubBriefData {
    pub prs_to_review: Vec<GitHubPullRequest>,
    pub my_open_prs: Vec<GitHubPullRequest>,
    pub mentioned_issues: Vec<GitHubIssue>,
    pub notifications: Vec<GitHubNotification>,
    pub last_updated: Option<i64>,
}

impl Default for GitHubBriefData {
    /// Nothing to show, never fetched.
    fn default() -> (data: GitHubBriefData)
        ensures
            data.prs_to_review@.len() == 0,
            data.my_open_prs@.len() == 0,
            data.mentioned_issues@.len() == 0,
            data.notifications@.len() == 0,
            data.last_updated is None,
    {
        GitHubBriefData {
            prs_to_review: Vec::new(),
            my_open_prs: Vec::new(),
            mentioned_issues: Vec::new(),
            notifications: Vec::new(),
            last_updated: None,
        }
    }
}

/// A user as the remote API reports it.
#[derive(Debug)]
pub struct GitHubApiUser {
    pub login: String,
    pub avatar_url: String,
    pub name: Option<String>,
}

/// A label as the remote API reports it.
#[derive(Debug)]
pub struct GitHubApiLabel {
    pub name: String,
    pub color: String,
}

/// A pull request as the remote API reports it.
#[derive(Debug)]
pub struct GitHubApiPullRequest {
    pub id: i64,
    pub number: i32,
    pub title: String,
    pub state: String,
    pub draft: Option<bool>,
    pub user: GitHubApiUser,
    pub html_url: String,
    pub created_at: String,
    pub updated_at: String,
    pub requested_reviewers: Vec<GitHubApiUser>,
    pub labels: Vec<GitHubApiLabel>,
}

/// An issue as the remote API's search reports it. A pull request is
/// reported as an issue that carries a pull-request record; only the
/// presence of that record matters here.
#[derive(Debug)]
pub struct GitHubApiIssue {
    pub id: i64,
    pub number: i32,
    pub title: String,
    pub state: String,
    pub user: GitHubApiUser,
    pub html_url: String,
    pub body: Option<String>,
    pub labels: Vec<GitHubApiLabel>,
    pub pull_request: bool,
}

/// One page of search results.
#[derive(Debug)]
pub struct GitHubApiSearchResult<T> {
    pub total_count: i32,
    pub items: Vec<T>,
}

/// A notification as the remote API reports it.
#[derive(Debug)]
pub struct GitHubApiNotification {
    pub id: String,
    pub repository: GitHubApiRepository,
    pub subject: GitHubApiSubject,
    pub reason: String,
    pub unread: bool,
    pub updated_at: String,
}

/// The repository of a notification.
#[derive(Debug)]
pub struct GitHubApiRepository {
    pub full_name: String,
}

/// The subject of a notification.
#[derive(Debug)]
pub struct GitHubApiSubject {
    pub title: String,
    pub subject_type: String,
    pub url: Option<String>,
}

} // verus!
