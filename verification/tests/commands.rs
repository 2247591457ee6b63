use wtftoday::commands::brief::{fall_back, get_brief, refresh_brief};
use wtftoday::commands::calendar::{
    calendar_source, fetch_calendar_events, get_cached_calendar_events, refresh_calendar,
    CalendarSource,
};
use wtftoday::commands::settings::{get_all_settings, is_onboarding_complete};
use wtftoday::database::repository::{get_cache_metadata, set_setting};
use wtftoday::database::schema::init_database;
use wtftoday::error::{AppError, ErrorKind};
use wtftoday::models::brief::BriefData;
use wtftoday::models::calendar::CalendarConfig;
use wtftoday::models::email::EmailConfig;
use wtftoday::models::github::GitHubBriefData;
use wtftoday::models::settings::AllSettings;

/// 2024-01-15T12:00:00Z
const NOON: i64 = 1_705_320_000;
const MIDNIGHT: i64 = 1_705_276_800;

fn url_config() -> CalendarConfig {
    CalendarConfig {
        source_type: "ics_url".to_string(),
        ics_path: None,
        ics_url: Some("https://example.org/cal.ics".to_string()),
    }
}

fn file_config() -> CalendarConfig {
    CalendarConfig {
        source_type: "ics_file".to_string(),
        ics_path: Some("/tmp/cal.ics".to_string()),
        ics_url: None,
    }
}

fn two_events() -> String {
    [
        "BEGIN:VCALENDAR\r\nVERSION:2.0\r\n",
        "BEGIN:VEVENT\r\nUID:standup\r\nSUMMARY:Standup\r\n",
        "DTSTART:20240115T120000Z\r\nDTEND:20240115T123000Z\r\nEND:VEVENT\r\n",
        "BEGIN:VEVENT\r\nUID:holiday\r\nSUMMARY:Company Holiday\r\n",
        "DTSTART;VALUE=DATE:20240115\r\nEND:VEVENT\r\n",
        "END:VCALENDAR\r\n",
    ]
    .concat()
}

fn one_event(uid: &str) -> String {
    format!(
        "BEGIN:VCALENDAR\r\nBEGIN:VEVENT\r\nUID:{}\r\nDTSTART:20240115T130000Z\r\nEND:VEVENT\r\nEND:VCALENDAR\r\n",
        uid
    )
}

fn network_down() -> Result<String, AppError> {
    Err(AppError::Network("connection refused".to_string()))
}

fn github(stamp: i64) -> GitHubBriefData {
    let mut data = GitHubBriefData::default();
    data.last_updated = Some(stamp);
    data
}

#[test]
fn source_follows_the_configuration() {
    match calendar_source(&url_config()).unwrap() {
        CalendarSource::Url(url) => assert_eq!(url, "https://example.org/cal.ics"),
        _ => panic!("a URL source was configured"),
    }
    match calendar_source(&file_config()).unwrap() {
        CalendarSource::File(path) => assert_eq!(path, "/tmp/cal.ics"),
        _ => panic!("a file source was configured"),
    }
    assert!(matches!(
        calendar_source(&CalendarConfig::default()).unwrap(),
        CalendarSource::NotConfigured
    ));
    let odd = CalendarConfig {
        source_type: "caldav".to_string(),
        ics_path: Some("/tmp/cal.ics".to_string()),
        ics_url: Some("https://example.org".to_string()),
    };
    assert!(matches!(calendar_source(&odd).unwrap(), CalendarSource::NotConfigured));
}

#[test]
fn source_without_its_parameter_is_a_validation_error() {
    let mut config = url_config();
    config.ics_url = None;
    config.ics_path = Some("/tmp/cal.ics".to_string());
    let error = calendar_source(&config).unwrap_err();
    assert_eq!(error.error_kind(), ErrorKind::Validation);
    assert_eq!(error.message(), "Calendar URL not configured");
    let mut config = file_config();
    config.ics_path = None;
    let error = calendar_source(&config).unwrap_err();
    assert_eq!(error.error_kind(), ErrorKind::Validation);
    assert_eq!(error.message(), "Calendar file path not configured");
}

#[test]
fn default_configuration_has_no_source() {
    let config = CalendarConfig::default();
    assert_eq!(config.source_type, "none");
    assert_eq!(config.ics_path, None);
    assert_eq!(config.ics_url, None);
}

#[test]
fn fetch_stores_and_returns_the_events() {
    let mut db = init_database();
    let events = fetch_calendar_events(&mut db, &url_config(), Ok(two_events()), NOON).unwrap();
    assert_eq!(events.len(), 2);
    assert_eq!(events[0].id, "holiday");
    assert_eq!(events[1].id, "standup");
    assert_eq!(db.calendar_events.len(), 2);
    assert!(db.calendar_events.iter().all(|r| r.source == "ics_url"));
    assert_eq!(get_cache_metadata(&db, "calendar"), Some((NOON, None)));
}

#[test]
fn fetch_without_a_source_returns_nothing_and_writes_nothing() {
    let mut db = init_database();
    let events =
        fetch_calendar_events(&mut db, &CalendarConfig::default(), Ok(two_events()), NOON).unwrap();
    assert!(events.is_empty());
    assert!(db.calendar_events.is_empty());
    assert_eq!(get_cache_metadata(&db, "calendar"), None);
}

#[test]
fn fetch_hands_on_transport_and_parse_failures() {
    let mut db = init_database();
    fetch_calendar_events(&mut db, &url_config(), Ok(one_event("kept")), NOON).unwrap();
    let error = fetch_calendar_events(&mut db, &url_config(), network_down(), NOON + 5).unwrap_err();
    assert_eq!(error.error_kind(), ErrorKind::Network);
    assert_eq!(error.message(), "connection refused");
    let error = fetch_calendar_events(&mut db, &url_config(), Ok("<html>".to_string()), NOON + 5)
        .unwrap_err();
    assert_eq!(error.error_kind(), ErrorKind::Parse);
    let mut broken = url_config();
    broken.ics_url = None;
    let error =
        fetch_calendar_events(&mut db, &broken, Ok(one_event("x")), NOON + 5).unwrap_err();
    assert_eq!(error.error_kind(), ErrorKind::Validation);
    assert_eq!(db.calendar_events.len(), 1);
    assert_eq!(db.calendar_events[0].id, "kept");
    assert_eq!(get_cache_metadata(&db, "calendar"), Some((NOON, None)));
}

#[test]
fn refetch_replaces_the_partition_and_spares_the_other_source() {
    let mut db = init_database();
    fetch_calendar_events(&mut db, &file_config(), Ok(one_event("from-file")), NOON).unwrap();
    fetch_calendar_events(&mut db, &url_config(), Ok(two_events()), NOON).unwrap();
    fetch_calendar_events(&mut db, &url_config(), Ok(one_event("only")), NOON).unwrap();
    let rows: Vec<(&str, &str)> =
        db.calendar_events.iter().map(|r| (r.source.as_str(), r.id.as_str())).collect();
    assert_eq!(rows, vec![("ics_file", "from-file"), ("ics_url", "only")]);
}

#[test]
fn reingesting_the_same_text_does_not_duplicate() {
    let mut db = init_database();
    fetch_calendar_events(&mut db, &url_config(), Ok(two_events()), NOON).unwrap();
    let first: Vec<String> =
        get_cached_calendar_events(&db, NOON).into_iter().map(|e| e.id).collect();
    fetch_calendar_events(&mut db, &url_config(), Ok(two_events()), NOON).unwrap();
    let second: Vec<String> =
        get_cached_calendar_events(&db, NOON).into_iter().map(|e| e.id).collect();
    assert_eq!(first, vec!["holiday", "standup"]);
    assert_eq!(second, first);
    assert_eq!(db.calendar_events.len(), 2);
}

#[test]
fn refresh_falls_back_to_the_cache_on_fetch_failure() {
    let mut db = init_database();
    let fresh = refresh_calendar(&mut db, &url_config(), Ok(two_events()), NOON);
    assert_eq!(fresh.len(), 2);
    let stale = refresh_calendar(&mut db, &url_config(), network_down(), NOON + 60);
    let ids: Vec<&str> = stale.iter().map(|e| e.id.as_str()).collect();
    assert_eq!(ids, vec!["holiday", "standup"]);
    assert_eq!(stale[1].start_time, NOON);
    assert_eq!(stale[1].end_time, NOON + 1800);
    assert_eq!(stale[1].summary, "Standup");
    assert!(stale[1].is_now);
    assert_eq!(get_cache_metadata(&db, "calendar"), Some((NOON, None)));
}

#[test]
fn refresh_with_empty_cache_and_fetch_failure_is_empty() {
    let mut db = init_database();
    let events = refresh_calendar(&mut db, &url_config(), network_down(), NOON);
    assert!(events.is_empty());
    let events = refresh_calendar(&mut db, &url_config(), Ok("garbage".to_string()), NOON);
    assert!(events.is_empty());
    assert!(db.calendar_events.is_empty());
}

#[test]
fn refresh_without_a_source_is_empty() {
    let mut db = init_database();
    refresh_calendar(&mut db, &url_config(), Ok(one_event("cached")), NOON);
    let events = refresh_calendar(&mut db, &CalendarConfig::default(), network_down(), NOON);
    assert!(events.is_empty());
    assert_eq!(db.calendar_events.len(), 1);
}

#[test]
fn refresh_with_a_broken_configuration_shows_the_cache() {
    let mut db = init_database();
    refresh_calendar(&mut db, &url_config(), Ok(one_event("cached")), NOON);
    let mut broken = url_config();
    broken.ics_url = None;
    let events = refresh_calendar(&mut db, &broken, Ok(one_event("fresh")), NOON);
    assert_eq!(events.len(), 1);
    assert_eq!(events[0].id, "cached");
}

#[test]
fn end_to_end_holiday_and_standup() {
    let mut db = init_database();
    fetch_calendar_events(&mut db, &url_config(), Ok(two_events()), NOON).unwrap();
    let today = get_cached_calendar_events(&db, NOON);
    assert_eq!(today.len(), 2);
    assert_eq!(today[0].summary, "Company Holiday");
    assert!(today[0].all_day);
    assert_eq!(today[0].start_time, MIDNIGHT);
    assert!(!today[0].is_now);
    assert!(!today[0].is_soon);
    assert_eq!(today[1].summary, "Standup");
    assert!(!today[1].all_day);
    assert_eq!(today[1].start_time, NOON);
    assert_eq!(today[1].end_time, NOON + 1800);
    assert!(today[1].is_now);
    assert!(!today[1].is_soon);
}

#[test]
fn fall_back_prefers_fresh_then_cached() {
    let down = || Err::<i32, AppError>(AppError::Network("down".to_string()));
    assert_eq!(fall_back(Ok(1), Ok(2)), Some(1));
    assert_eq!(fall_back(Ok(1), down()), Some(1));
    assert_eq!(fall_back(down(), Ok(2)), Some(2));
    assert_eq!(fall_back(down(), down()), None);
}

#[test]
fn refreshed_brief_isolates_the_sources() {
    let mut db = init_database();
    let down = || Err::<GitHubBriefData, AppError>(AppError::Network("down".to_string()));
    let brief =
        refresh_brief(&mut db, true, Ok(github(7)), down(), &url_config(), network_down(), NOON);
    assert_eq!(brief.github.unwrap().last_updated, Some(7));
    assert!(brief.calendar.is_empty());
    assert!(brief.email.is_empty());
    assert_eq!(brief.generated_at, NOON);

    let brief =
        refresh_brief(&mut db, true, down(), Ok(github(3)), &url_config(), Ok(two_events()), NOON);
    assert_eq!(brief.github.unwrap().last_updated, Some(3));
    assert_eq!(brief.calendar.len(), 2);

    let brief = refresh_brief(&mut db, true, down(), down(), &url_config(), network_down(), NOON + 1);
    assert!(brief.github.is_none());
    assert_eq!(brief.calendar.len(), 2);
    assert_eq!(brief.generated_at, NOON + 1);

    let brief = refresh_brief(
        &mut db,
        false,
        Ok(github(9)),
        Ok(github(9)),
        &CalendarConfig::default(),
        network_down(),
        NOON,
    );
    assert!(brief.github.is_none());
    assert!(brief.calendar.is_empty());
    assert_eq!(db.calendar_events.len(), 2);
}

#[test]
fn cached_brief_reads_only_the_cache() {
    let mut db = init_database();
    let brief = get_brief(&db, true, Ok(github(1)), NOON);
    assert_eq!(brief.github.unwrap().last_updated, Some(1));
    assert!(brief.calendar.is_empty());
    fetch_calendar_events(&mut db, &url_config(), Ok(two_events()), NOON).unwrap();
    let brief = get_brief(&db, false, Ok(github(1)), NOON);
    assert!(brief.github.is_none());
    assert_eq!(brief.calendar.len(), 2);
    assert!(brief.email.is_empty());
    assert_eq!(brief.generated_at, NOON);
    let brief = get_brief(&db, true, Err(AppError::Database("locked".to_string())), NOON);
    assert!(brief.github.is_none());
}

#[test]
fn default_brief_is_empty_and_stamped_by_the_clock() {
    let before = chrono::Utc::now().timestamp();
    let brief = BriefData::default();
    let after = chrono::Utc::now().timestamp();
    assert!(brief.github.is_none());
    assert!(brief.calendar.is_empty());
    assert!(brief.email.is_empty());
    assert!(before <= brief.generated_at && brief.generated_at <= after);
}

#[test]
fn onboarding_needs_the_exact_text() {
    let mut db = init_database();
    assert!(!is_onboarding_complete(&db));
    set_setting(&mut db, "onboarding_complete", "yes");
    assert!(!is_onboarding_complete(&db));
    set_setting(&mut db, "onboarding_complete", "true");
    assert!(is_onboarding_complete(&db));
}

#[test]
fn all_settings_are_collected() {
    let mut db = init_database();
    set_setting(&mut db, "github_username", "octocat");
    set_setting(&mut db, "onboarding_complete", "true");
    let settings = get_all_settings(&db, true, url_config());
    assert!(settings.github_configured);
    assert_eq!(settings.github_username.as_deref(), Some("octocat"));
    assert_eq!(settings.calendar_config.source_type, "ics_url");
    assert!(!settings.email_config.enabled);
    assert!(settings.onboarding_complete);
    let settings = get_all_settings(&db, false, CalendarConfig::default());
    assert!(!settings.github_configured);
    assert_eq!(settings.github_username, None);
}

#[test]
fn default_settings() {
    let settings = AllSettings::default();
    assert!(!settings.github_configured);
    assert_eq!(settings.github_username, None);
    assert_eq!(settings.calendar_config.source_type, "none");
    assert!(!settings.onboarding_complete);
    let email = EmailConfig::default();
    assert!(!email.enabled);
    assert_eq!(email.imap_server, None);
    assert_eq!(email.imap_port, None);
    assert_eq!(email.username, None);
}
