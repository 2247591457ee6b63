//! Putting the brief together.
//!
//! Each source is refreshed on its own: a failure of one source fills that
//! source's field from the cache, or leaves it empty, and never reaches the
//! other sources or the caller.

use crate::agenda::{event_views, is_ordered};
use crate::commands::calendar::{
    after_fetch, fetch_succeeds, get_cached_calendar_events, refresh_calendar, stale_events,
};
use crate::database::repository::todays_events;
use crate::database::schema::Database;
use crate::error::AppError;
use crate::ics::ical_calendars;
use crate::models::brief::BriefData;
use crate::models::calendar::CalendarConfig;
use crate::models::github::GitHubBriefData;
use crate::services::calendar_service::{all_events, ingests};
use vstd::prelude::*;

verus! {

/// What a source contributes after a refresh: the fresh value when the
/// fetch succeeded; otherwise the cached value, if the cache could be read.
pub open spec fn fallen_back<T>(fetched: Result<T, AppError>, cached: Result<T, AppError>) -> Option<
    T,
> {
    match fetched {
        Ok(fresh) => Some(fresh),
        Err(_) => match cached {
            Ok(stale) => Some(stale),
            Err(_) => None,
        },
    }
}

/// Computes [`fallen_back`].
pub fn fall_back<T>(fetched: Result<T, AppError>, cached: Result<T, AppError>) -> (value: Option<T>)
    ensures
        value == fallen_back(fetched, cached),
{
    match fetched {
        Ok(fresh) => Some(fresh),
        Err(_) => match cached {
            Ok(stale) => Some(stale),
            Err(_) => None,
        },
    }
}

/// What the code-review source contributes to a refreshed brief: nothing
/// when it is not configured, else what [`fallen_back`] gives.
pub open spec fn refreshed_github(
    configured: bool,
    fetched: Result<GitHubBriefData, AppError>,
    cached: Result<GitHubBriefData, AppError>,
) -> Option<GitHubBriefData> {
    if configured {
        fallen_back(fetched, cached)
    } else {
        None
    }
}

/// What the code-review source contributes to a brief read from the cache.
pub open spec fn cached_github(configured: bool, cached: Result<GitHubBriefData, AppError>) -> Option<
    GitHubBriefData,
> {
    if configured {
        match cached {
            Ok(stale) => Some(stale),
            Err(_) => None,
        }
    } else {
        None
    }
}

/// Refreshes every source and puts the brief together.
///
/// `github_fetched` and `github_cached` are the outcomes of the live fetch
/// and of the cache read of the code-review source; both are ignored when
/// that source is not configured. `calendar_content` is what the calendar
/// source returned. The brief is stamped with `now`.
pub fn refresh_brief(
    db: &mut Database,
    github_configured: bool,
    github_fetched: Result<GitHubBriefData, AppError>,
    github_cached: Result<GitHubBriefData, AppError>,
    calendar_config: &CalendarConfig,
    calendar_content: Result<String, AppError>,
    now: i64,
) -> (brief: BriefData)
    ensures
        brief.github == refreshed_github(github_configured, github_fetched, github_cached),
        brief.email@.len() == 0,
        brief.generated_at == now,
        is_ordered(event_views(brief.calendar@)),
        fetch_succeeds(calendar_config@, calendar_content) ==> ingests(
            all_events(ical_calendars(calendar_content->Ok_0@).unwrap()),
            now as int,
            event_views(brief.calendar@),
        ) && final(db)@ == after_fetch(
            old(db)@,
            event_views(brief.calendar@),
            calendar_config@.source_type,
            now as int,
        ),
        !fetch_succeeds(calendar_config@, calendar_content) ==> final(db)@ == old(db)@
            && event_views(brief.calendar@) == stale_events(
            calendar_config@,
            old(db)@.calendar_events,
            now as int,
        ),
{
    let github = if github_configured {
        fall_back(github_fetched, github_cached)
    } else {
        None
    };
    let calendar = refresh_calendar(db, calendar_config, calendar_content, now);
    BriefData { github: github, calendar: calendar, email: Vec::new(), generated_at: now }
}

/// Puts the brief together from the cache alone.
pub fn get_brief(
    db: &Database,
    github_configured: bool,
    github_cached: Result<GitHubBriefData, AppError>,
    now: i64,
) -> (brief: BriefData)
    ensures
        brief.github == cached_github(github_configured, github_cached),
        event_views(brief.calendar@) == todays_events(db@.calendar_events, now as int),
        brief.email@.len() == 0,
        brief.generated_at == now,
{
    let github = if github_configured {
        match github_cached {
            Ok(stale) => Some(stale),
            Err(_) => None,
        }
    } else {
        None
    };
    let calendar = get_cached_calendar_events(db, now);
    BriefData { github: github, calendar: calendar, email: Vec::new(), generated_at: now }
}

} // verus!
