//! The code-review source: which requests to make, and how to turn what the
//! remote API reports into what the brief shows.
//!
//! Sending the requests is the caller's part.

use crate::error::AppError;
use crate::models::github::{
    GitHubApiIssue, GitHubApiLabel, GitHubApiNotification, GitHubApiUser, GitHubBriefData,
    GitHubIssue, GitHubLabel, GitHubNotification, GitHubPullRequest, GitHubUser,
};
use crate::text::{replace_all, replace_text, split_on, split_text};
use vstd::prelude::*;
use vstd::string::*;
use vstd::utf8::*;

verus! {

/// A byte that stands for itself in a query: a letter, a digit, or one of
/// `-`, `.`, `_`, `~`.
pub open spec fn is_unreserved(byte: u8) -> bool {
    (0x30 <= byte <= 0x39) || (0x41 <= byte <= 0x5a) || (0x61 <= byte <= 0x7a) || byte == 0x2d
        || byte == 0x2e || byte == 0x5f || byte == 0x7e
}

/// The upper-case hexadecimal digit of a value below sixteen.
pub open spec fn hex_digit(nibble: u8) -> char {
    if nibble < 10 {
        (0x30 + nibble) as u8 as char
    } else {
        (0x41 + nibble - 10) as u8 as char
    }
}

/// How one byte is written in a query.
pub open spec fn encoded_byte(byte: u8) -> Seq<char> {
    if is_unreserved(byte) {
        seq![byte as char]
    } else {
        seq!['%', hex_digit(byte / 16), hex_digit(byte % 16)]
    }
}

/// The percent-encoding of a byte string.
pub open spec fn percent_encoded(bytes: Seq<u8>) -> Seq<char>
    decreases bytes.len(),
{
    if bytes.len() == 0 {
        Seq::empty()
    } else {
        percent_encoded(bytes.drop_last()) + encoded_byte(bytes.last())
    }
}

/// Computes [`is_unreserved`].
fn unreserved(byte: u8) -> (plain: bool)
    ensures
        plain == is_unreserved(byte),
{
    (0x30 <= byte && byte <= 0x39) || (0x41 <= byte && byte <= 0x5a) || (0x61 <= byte && byte
        <= 0x7a) || byte == 0x2d || byte == 0x2e || byte == 0x5f || byte == 0x7e
}

/// The one-character text of a byte that stands for itself.
fn unreserved_text(byte: u8) -> (text: &'static str)
    requires
        is_unreserved(byte),
    ensures
        text@ == seq![byte as char],
{
    proof {
        reveal_strlit("0123456789");
        reveal_strlit("ABCDEFGHIJKLMNOPQRSTUVWXYZ");
        reveal_strlit("abcdefghijklmnopqrstuvwxyz");
        reveal_strlit("-");
        reveal_strlit(".");
        reveal_strlit("_");
        reveal_strlit("~");
    }
    let text = if 0x30 <= byte && byte <= 0x39 {
        let place: usize = (byte - 0x30) as usize;
        "0123456789".substring_char(place, place + 1)
    } else if 0x41 <= byte && byte <= 0x5a {
        let place: usize = (byte - 0x41) as usize;
        "ABCDEFGHIJKLMNOPQRSTUVWXYZ".substring_char(place, place + 1)
    } else if 0x61 <= byte && byte <= 0x7a {
        let place: usize = (byte - 0x61) as usize;
        "abcdefghijklmnopqrstuvwxyz".substring_char(place, place + 1)
    } else if byte == 0x2d {
        "-"
    } else if byte == 0x2e {
        "."
    } else if byte == 0x5f {
        "_"
    } else {
        "~"
    };
    proof {
        assert(text@ =~= seq![byte as char]);
    }
    text
}

/// The one-character text of [`hex_digit`].
fn hex_text(nibble: u8) -> (text: &'static str)
    requires
        nibble < 16,
    ensures
        text@ == seq![hex_digit(nibble)],
{
    proof {
        reveal_strlit("0123456789ABCDEF");
    }
    let place: usize = nibble as usize;
    let text = "0123456789ABCDEF".substring_char(place, place + 1);
    proof {
        assert(text@ =~= seq![hex_digit(nibble)]);
    }
    text
}

/// Percent-encodes a text for use in a query: computes [`percent_encoded`]
/// of the text's UTF-8 bytes.
pub fn percent_encode(text: &str) -> (encoded: String)
    ensures
        encoded@ == percent_encoded(encode_utf8(text@)),
{
    let bytes = text.as_bytes();
    let mut encoded: String = String::new();
    let mut i: usize = 0;
    while i < bytes.len()
        invariant
            i <= bytes.len(),
            encoded@ == percent_encoded(bytes@.take(i as int)),
        decreases bytes.len() - i,
    {
        let byte: u8 = bytes[i];
        let ghost before = encoded@;
        proof {
            assert(bytes@.take(i + 1).drop_last() =~= bytes@.take(i as int));
            assert(bytes@.take(i + 1).last() == byte);
        }
        if unreserved(byte) {
            encoded.append(unreserved_text(byte));
        } else {
            proof {
                reveal_strlit("%");
            }
            encoded.append("%");
            encoded.append(hex_text(byte / 16));
            encoded.append(hex_text(byte % 16));
            proof {
                assert(encoded@ =~= before + seq!['%', hex_digit(byte / 16), hex_digit(byte % 16)]);
            }
        }
        i += 1;
    }
    proof {
        assert(bytes@.take(bytes.len() as int) =~= bytes@);
    }
    encoded
}

/// The search for open pull requests that wait for a review by `username`.
pub open spec fn review_requests_query(username: Seq<char>) -> Seq<char> {
    "is:open is:pr review-requested:"@ + username + " archived:false"@
}

/// The search for open pull requests written by `username`.
pub open spec fn authored_query(username: Seq<char>) -> Seq<char> {
    "is:open is:pr author:"@ + username + " archived:false"@
}

/// The search for open issues that mention `username`.
pub open spec fn mentions_query(username: Seq<char>) -> Seq<char> {
    "is:open mentions:"@ + username + " archived:false"@
}

/// The address of a search: the newest twenty results for the query.
pub open spec fn search_address(query: Seq<char>) -> Seq<char> {
    "https://api.github.com/search/issues?q="@ + percent_encoded(encode_utf8(query))
        + "&sort=updated&order=desc&per_page=20"@
}

/// Builds the address of a search.
pub fn search_url(query: &str) -> (url: String)
    ensures
        url@ == search_address(query@),
{
    let encoded = percent_encode(query);
    String::from_str("https://api.github.com/search/issues?q=").concat(encoded.as_str()).concat(
        "&sort=updated&order=desc&per_page=20",
    )
}

/// The address that lists the pull requests waiting for `username`.
pub fn review_requests_url(username: &str) -> (url: String)
    ensures
        url@ == search_address(review_requests_query(username@)),
{
    let query = String::from_str("is:open is:pr review-requested:").concat(username).concat(
        " archived:false",
    );
    search_url(query.as_str())
}

/// The address that lists the open pull requests of `username`.
pub fn my_open_prs_url(username: &str) -> (url: String)
    ensures
        url@ == search_address(authored_query(username@)),
{
    let query = String::from_str("is:open is:pr author:").concat(username).concat(
        " archived:false",
    );
    search_url(query.as_str())
}

/// The address that lists the open issues mentioning `username`.
pub fn mentioned_issues_url(username: &str) -> (url: String)
    ensures
        url@ == search_address(mentions_query(username@)),
{
    let query = String::from_str("is:open mentions:").concat(username).concat(" archived:false");
    search_url(query.as_str())
}

/// The address of the signed-in user.
pub fn current_user_url() -> (url: String)
    ensures
        url@ == "https://api.github.com/user"@,
{
    "https://api.github.com/user".to_owned()
}

/// The address of the thirty newest notifications.
pub fn notifications_url() -> (url: String)
    ensures
        url@ == "https://api.github.com/notifications?per_page=30"@,
{
    "https://api.github.com/notifications?per_page=30".to_owned()
}

/// The value of the authorization header for a token.
pub fn authorization_value(token: &str) -> (value: String)
    ensures
        value@ == "Bearer "@ + token@,
{
    String::from_str("Bearer ").concat(token)
}

/// The `owner/repo` part of a page address such as
/// `https://github.com/owner/repo/...`: the fourth and fifth piece between
/// slashes, or nothing when the address has fewer than five pieces.
pub open spec fn repo_of_url(url: Seq<char>) -> Seq<char> {
    let pieces = split_on(url, '/');
    if pieces.len() >= 5 {
        pieces[3] + "/"@ + pieces[4]
    } else {
        Seq::empty()
    }
}

/// Computes [`repo_of_url`].
pub fn extract_repo_from_url(url: &str) -> (repo: String)
    ensures
        repo@ == repo_of_url(url@),
{
    let pieces = split_text(url, '/');
    if pieces.len() >= 5 {
        pieces[3].clone().concat("/").concat(pieces[4].as_str())
    } else {
        String::new()
    }
}

/// The page address for an API address: `api.github.com/repos` becomes
/// `github.com`, and then `/pulls/` becomes `/pull/`.
pub open spec fn html_url_of(api_url: Seq<char>) -> Seq<char> {
    replace_all(
        replace_all(api_url, "api.github.com/repos"@, "github.com"@),
        "/pulls/"@,
        "/pull/"@,
    )
}

/// Computes [`html_url_of`].
pub fn convert_api_url_to_html(api_url: &str) -> (html_url: String)
    ensures
        html_url@ == html_url_of(api_url@),
{
    let first = replace_text(api_url, "api.github.com/repos", "github.com");
    replace_text(first.as_str(), "/pulls/", "/pull/")
}

/// The last character boundary of a UTF-8 byte string at or below `limit`.
pub open spec fn cut_point(bytes: Seq<u8>, limit: int) -> int
    decreases limit,
{
    if limit <= 0 {
        0
    } else if is_char_boundary(bytes, limit) {
        limit
    } else {
        cut_point(bytes, limit - 1)
    }
}

/// The preview of an issue body: a body whose UTF-8 encoding is longer than
/// 200 bytes is cut to its first 197 bytes and three dots. Where the 197th
/// byte lies inside a character, the cut is made before that character.
pub open spec fn preview_of(body: Seq<char>) -> Seq<char> {
    let bytes = encode_utf8(body);
    if bytes.len() > 200 {
        decode_utf8(bytes.subrange(0, cut_point(bytes, 197))) + "..."@
    } else {
        body
    }
}

/// Computes [`preview_of`].
pub fn body_preview(body: &str) -> (preview: String)
    ensures
        preview@ == preview_of(body@),
{
    broadcast use {
        encode_utf8_valid_utf8,
        encode_utf8_decode_utf8,
        is_char_boundary_start_end_of_seq,
    };

    let length: usize = body.as_bytes().len();
    if length > 200 {
        let ghost bytes = encode_utf8(body@);
        let mut cut: usize = 197;
        while cut > 0 && !body.is_char_boundary(cut)
            invariant
                cut <= 197,
                bytes == encode_utf8(body@),
                cut_point(bytes, 197) == cut_point(bytes, cut as int),
            decreases cut,
        {
            cut -= 1;
        }
        proof {
            assert(is_char_boundary(bytes, 0));
            assert(cut_point(bytes, cut as int) == cut);
        }
        let (head, _) = body.split_at(cut);
        proof {
            assert(head@ == decode_utf8(encode_utf8(head@)));
            assert(encode_utf8(head@) == bytes.subrange(0, cut as int));
        }
        String::from_str(head).concat("...")
    } else {
        body.to_owned()
    }
}

/// The labels carry the names and colours of the reported labels, one for
/// one.
pub open spec fn labels_match(labels: Seq<GitHubLabel>, reported: Seq<GitHubApiLabel>) -> bool {
    labels.len() == reported.len() && forall|i: int|
        0 <= i < labels.len() ==> (#[trigger] labels[i]).name == reported[i].name
            && labels[i].color == reported[i].color
}

/// Converts the reported labels.
fn convert_labels(reported: &Vec<GitHubApiLabel>) -> (labels: Vec<GitHubLabel>)
    ensures
        labels_match(labels@, reported@),
{
    let mut labels: Vec<GitHubLabel> = Vec::new();
    let mut i: usize = 0;
    while i < reported.len()
        invariant
            i <= reported.len(),
            labels_match(labels@, reported@.take(i as int)),
        decreases reported.len() - i,
    {
        labels.push(
            GitHubLabel { name: reported[i].name.clone(), color: reported[i].color.clone() },
        );
        i += 1;
    }
    proof {
        assert(reported@.take(reported.len() as int) =~= reported@);
    }
    labels
}

/// The user that the brief shows for a reported user.
pub fn user_of(reported: GitHubApiUser) -> (user: GitHubUser)
    ensures
        user.login == reported.login,
        user.avatar_url == reported.avatar_url,
        user.name == reported.name,
{
    GitHubUser { login: reported.login, avatar_url: reported.avatar_url, name: reported.name }
}

/// `pr` is the pull request that the brief shows for the search result
/// `item`. The search reports neither the draft status nor the dates, nor
/// who was asked to look at the change or what they said: those are left
/// empty.
pub open spec fn is_pr_of(pr: GitHubPullRequest, item: GitHubApiIssue) -> bool {
    &&& pr.id == item.id
    &&& pr.repo_full_name@ == repo_of_url(item.html_url@)
    &&& pr.number == item.number
    &&& pr.title == item.title
    &&& pr.state == item.state
    &&& !pr.draft
    &&& pr.user_login == item.user.login
    &&& pr.user_avatar_url == Some(item.user.avatar_url)
    &&& pr.html_url == item.html_url
    &&& pr.created_at@.len() == 0
    &&& pr.updated_at@.len() == 0
    &&& pr.requested_reviewers@.len() == 0
    &&& labels_match(pr.labels@, item.labels@)
    &&& pr.review_status is None
}

/// Converts a search result into a pull request.
pub fn issue_to_pr(item: &GitHubApiIssue) -> (pr: GitHubPullRequest)
    ensures
        is_pr_of(pr, *item),
{
    GitHubPullRequest {
        id: item.id,
        repo_full_name: extract_repo_from_url(item.html_url.as_str()),
        number: item.number,
        title: item.title.clone(),
        state: item.state.clone(),
        draft: false,
        user_login: item.user.login.clone(),
        user_avatar_url: Some(item.user.avatar_url.clone()),
        html_url: item.html_url.clone(),
        created_at: String::new(),
        updated_at: String::new(),
        requested_reviewers: Vec::new(),
        labels: convert_labels(&item.labels),
        review_status: None,
    }
}

/// `issue` is the issue that the brief shows for the search result `item`.
pub open spec fn is_issue_of(issue: GitHubIssue, item: GitHubApiIssue) -> bool {
    &&& issue.id == item.id
    &&& issue.repo_full_name@ == repo_of_url(item.html_url@)
    &&& issue.number == item.number
    &&& issue.title == item.title
    &&& issue.state == item.state
    &&& issue.user_login == item.user.login
    &&& issue.html_url == item.html_url
    &&& match item.body {
        Some(body) => issue.body_preview matches Some(preview) && preview@ == preview_of(body@),
        None => issue.body_preview is None,
    }
    &&& labels_match(issue.labels@, item.labels@)
}

/// Converts a search result into an issue.
pub fn api_issue_to_issue(item: &GitHubApiIssue) -> (issue: GitHubIssue)
    ensures
        is_issue_of(issue, *item),
{
    let preview: Option<String> = match &item.body {
        Some(body) => Some(body_preview(body.as_str())),
        None => None,
    };
    GitHubIssue {
        id: item.id,
        repo_full_name: extract_repo_from_url(item.html_url.as_str()),
        number: item.number,
        title: item.title.clone(),
        state: item.state.clone(),
        user_login: item.user.login.clone(),
        html_url: item.html_url.clone(),
        body_preview: preview,
        labels: convert_labels(&item.labels),
    }
}

/// `shown` is the notification that the brief shows for the reported
/// notification: its subject's address is turned into a page address.
pub open spec fn is_notification_of(
    shown: GitHubNotification,
    reported: GitHubApiNotification,
) -> bool {
    &&& shown.id == reported.id
    &&& shown.repo_full_name == reported.repository.full_name
    &&& shown.subject_title == reported.subject.title
    &&& shown.subject_type == reported.subject.subject_type
    &&& shown.reason == reported.reason
    &&& shown.unread == reported.unread
    &&& shown.updated_at == reported.updated_at
    &&& match reported.subject.url {
        Some(url) => shown.url matches Some(page) && page@ == html_url_of(url@),
        None => shown.url is None,
    }
}

/// Converts a reported notification.
pub fn notification_of(reported: &GitHubApiNotification) -> (shown: GitHubNotification)
    ensures
        is_notification_of(shown, *reported),
{
    let url: Option<String> = match &reported.subject.url {
        Some(url) => Some(convert_api_url_to_html(url.as_str())),
        None => None,
    };
    GitHubNotification {
        id: reported.id.clone(),
        repo_full_name: reported.repository.full_name.clone(),
        subject_title: reported.subject.title.clone(),
        subject_type: reported.subject.subject_type.clone(),
        reason: reported.reason.clone(),
        unread: reported.unread,
        updated_at: reported.updated_at.clone(),
        url: url,
    }
}

/// The search results that are pull requests.
pub open spec fn pull_request_items(items: Seq<GitHubApiIssue>) -> Seq<GitHubApiIssue> {
    items.filter(|item: GitHubApiIssue| item.pull_request)
}

/// The search results that are plain issues.
pub open spec fn issue_items(items: Seq<GitHubApiIssue>) -> Seq<GitHubApiIssue> {
    items.filter(|item: GitHubApiIssue| !item.pull_request)
}

/// The pull requests among the search results, converted, in their order.
pub fn pull_requests_of(items: &Vec<GitHubApiIssue>) -> (prs: Vec<GitHubPullRequest>)
    ensures
        prs@.len() == pull_request_items(items@).len(),
        forall|i: int|
            0 <= i < prs@.len() ==> is_pr_of(#[trigger] prs@[i], pull_request_items(items@)[i]),
{
    let mut prs: Vec<GitHubPullRequest> = Vec::new();
    let mut i: usize = 0;
    proof {
        reveal(Seq::filter);
    }
    while i < items.len()
        invariant
            i <= items.len(),
            prs@.len() == pull_request_items(items@.take(i as int)).len(),
            forall|k: int|
                0 <= k < prs@.len() ==> is_pr_of(
                    #[trigger] prs@[k],
                    pull_request_items(items@.take(i as int))[k],
                ),
        decreases items.len() - i,
    {
        proof {
            reveal(Seq::filter);
            assert(items@.take(i + 1).drop_last() =~= items@.take(i as int));
            assert(items@.take(i + 1).last() == items@[i as int]);
        }
        if items[i].pull_request {
            prs.push(issue_to_pr(&items[i]));
        }
        i += 1;
    }
    proof {
        assert(items@.take(items.len() as int) =~= items@);
    }
    prs
}

/// The plain issues among the search results, converted, in their order.
pub fn issues_of(items: &Vec<GitHubApiIssue>) -> (issues: Vec<GitHubIssue>)
    ensures
        issues@.len() == issue_items(items@).len(),
        forall|i: int|
            0 <= i < issues@.len() ==> is_issue_of(#[trigger] issues@[i], issue_items(items@)[i]),
{
    let mut issues: Vec<GitHubIssue> = Vec::new();
    let mut i: usize = 0;
    proof {
        reveal(Seq::filter);
    }
    while i < items.len()
        invariant
            i <= items.len(),
            issues@.len() == issue_items(items@.take(i as int)).len(),
            forall|k: int|
                0 <= k < issues@.len() ==> is_issue_of(
                    #[trigger] issues@[k],
                    issue_items(items@.take(i as int))[k],
                ),
        decreases items.len() - i,
    {
        proof {
            reveal(Seq::filter);
            assert(items@.take(i + 1).drop_last() =~= items@.take(i as int));
            assert(items@.take(i + 1).last() == items@[i as int]);
        }
        if !items[i].pull_request {
            issues.push(api_issue_to_issue(&items[i]));
        }
        i += 1;
    }
    proof {
        assert(items@.take(items.len() as int) =~= items@);
    }
    issues
}

/// The reported notifications, converted one for one.
pub fn notifications_of(reported: &Vec<GitHubApiNotification>) -> (shown: Vec<GitHubNotification>)
    ensures
        shown@.len() == reported@.len(),
        forall|i: int|
            0 <= i < shown@.len() ==> is_notification_of(#[trigger] shown@[i], reported@[i]),
{
    let mut shown: Vec<GitHubNotification> = Vec::new();
    let mut i: usize = 0;
    while i < reported.len()
        invariant
            i <= reported.len(),
            shown@.len() == i,
            forall|k: int| 0 <= k < i ==> is_notification_of(#[trigger] shown@[k], reported@[k]),
        decreases reported.len() - i,
    {
        shown.push(notification_of(&reported[i]));
        i += 1;
    }
    shown
}

/// What one of the four queries contributes: its result, or nothing when
/// it failed.
pub open spec fn or_nothing<T>(outcome: Result<Vec<T>, AppError>) -> Seq<T> {
    match outcome {
        Ok(list) => list@,
        Err(_) => Seq::empty(),
    }
}

/// Takes the result of a query, or an empty list when it failed.
fn list_or_nothing<T>(outcome: Result<Vec<T>, AppError>) -> (list: Vec<T>)
    ensures
        list@ == or_nothing(outcome),
{
    match outcome {
        Ok(list) => list,
        Err(_) => Vec::new(),
    }
}

/// Puts the outcomes of the four queries together. Each query stands on its
/// own: one that failed contributes an empty list and leaves the others as
/// they are. The data is stamped as updated at `now`.
pub fn collect_github_data(
    prs_to_review: Result<Vec<GitHubPullRequest>, AppError>,
    my_open_prs: Result<Vec<GitHubPullRequest>, AppError>,
    mentioned_issues: Result<Vec<GitHubIssue>, AppError>,
    notifications: Result<Vec<GitHubNotification>, AppError>,
    now: i64,
) -> (data: GitHubBriefData)
    ensures
        data.prs_to_review@ == or_nothing(prs_to_review),
        data.my_open_prs@ == or_nothing(my_open_prs),
        data.mentioned_issues@ == or_nothing(mentioned_issues),
        data.notifications@ == or_nothing(notifications),
        data.last_updated == Some(now),
{
    GitHubBriefData {
        prs_to_review: list_or_nothing(prs_to_review),
        my_open_prs: list_or_nothing(my_open_prs),
        mentioned_issues: list_or_nothing(mentioned_issues),
        notifications: list_or_nothing(notifications),
        last_updated: Some(now),
    }
}

} // verus!
