use wtftoday::database::repository::{
    calendar_events_for_today_at, clear_all_cache, get_cache_metadata,
    get_calendar_events_for_today, get_setting, save_calendar_events, set_cache_metadata,
    set_setting,
};
use wtftoday::database::schema::{init_database, Database};
use wtftoday::models::calendar::CalendarEvent;

/// 2024-01-15T12:00:00Z
const NOON: i64 = 1_705_320_000;
const MIDNIGHT: i64 = 1_705_276_800;

fn timed(id: &str, start: i64, end: i64) -> CalendarEvent {
    CalendarEvent {
        id: id.to_string(),
        summary: format!("Event {}", id),
        description: Some("about".to_string()),
        location: None,
        start_time: start,
        end_time: end,
        all_day: false,
        html_link: Some("https://example.org".to_string()),
        is_now: false,
        is_soon: false,
    }
}

fn rows(db: &Database) -> Vec<(String, String)> {
    db.calendar_events.iter().map(|r| (r.source.clone(), r.id.clone())).collect()
}

fn pair(source: &str, id: &str) -> (String, String) {
    (source.to_string(), id.to_string())
}

#[test]
fn new_database_is_empty() {
    let db = init_database();
    assert!(db.settings.is_empty());
    assert!(db.calendar_events.is_empty());
    assert!(db.cache_metadata.is_empty());
    assert!(calendar_events_for_today_at(&db, NOON).is_empty());
}

#[test]
fn settings_are_written_and_replaced() {
    let mut db = init_database();
    assert_eq!(get_setting(&db, "theme"), None);
    set_setting(&mut db, "theme", "dark");
    set_setting(&mut db, "lang", "en");
    assert_eq!(get_setting(&db, "theme").as_deref(), Some("dark"));
    set_setting(&mut db, "theme", "light");
    assert_eq!(get_setting(&db, "theme").as_deref(), Some("light"));
    assert_eq!(get_setting(&db, "lang").as_deref(), Some("en"));
    assert_eq!(db.settings.len(), 2);
    assert_eq!(get_setting(&db, "Theme"), None);
}

#[test]
fn saving_twice_leaves_only_the_second_set() {
    let mut db = init_database();
    save_calendar_events(&mut db, &vec![timed("b1", NOON, NOON + 60)], "B");
    save_calendar_events(
        &mut db,
        &vec![timed("a1", NOON, NOON + 60), timed("a2", NOON, NOON + 60)],
        "A",
    );
    save_calendar_events(
        &mut db,
        &vec![timed("a3", NOON, NOON + 60), timed("a2", NOON + 5, NOON + 60)],
        "A",
    );
    assert_eq!(rows(&db), vec![pair("B", "b1"), pair("A", "a3"), pair("A", "a2")]);
    assert_eq!(db.calendar_events[2].start_time, NOON + 5);
}

#[test]
fn saving_the_same_set_twice_changes_nothing() {
    let mut db = init_database();
    let events = vec![timed("a1", NOON, NOON + 60), timed("a2", NOON + 10, NOON + 60)];
    save_calendar_events(&mut db, &vec![timed("b1", NOON, NOON + 60)], "B");
    save_calendar_events(&mut db, &events, "A");
    let once = rows(&db);
    let shown_once: Vec<String> =
        calendar_events_for_today_at(&db, NOON).into_iter().map(|e| e.id).collect();
    save_calendar_events(&mut db, &events, "A");
    assert_eq!(rows(&db), once);
    let shown_twice: Vec<String> =
        calendar_events_for_today_at(&db, NOON).into_iter().map(|e| e.id).collect();
    assert_eq!(shown_twice, shown_once);
    assert_eq!(shown_once, vec!["b1", "a1", "a2"]);
}

#[test]
fn saving_an_empty_set_clears_the_partition() {
    let mut db = init_database();
    save_calendar_events(&mut db, &vec![timed("a1", NOON, NOON + 60)], "A");
    save_calendar_events(&mut db, &vec![timed("b1", NOON, NOON + 60)], "B");
    save_calendar_events(&mut db, &Vec::new(), "A");
    assert_eq!(rows(&db), vec![pair("B", "b1")]);
}

#[test]
fn a_repeated_id_in_one_set_keeps_the_last_event() {
    let mut db = init_database();
    save_calendar_events(
        &mut db,
        &vec![timed("x", NOON, NOON + 60), timed("y", NOON, NOON + 60), timed("x", NOON + 9, NOON + 60)],
        "A",
    );
    assert_eq!(rows(&db), vec![pair("A", "y"), pair("A", "x")]);
    assert_eq!(db.calendar_events[1].start_time, NOON + 9);
}

#[test]
fn an_id_saved_anew_leaves_its_old_partition() {
    let mut db = init_database();
    save_calendar_events(
        &mut db,
        &vec![timed("shared", NOON, NOON + 60), timed("b1", NOON, NOON + 60)],
        "B",
    );
    save_calendar_events(&mut db, &vec![timed("shared", NOON + 1, NOON + 60)], "A");
    assert_eq!(rows(&db), vec![pair("B", "b1"), pair("A", "shared")]);
}

#[test]
fn stored_rows_carry_the_event_without_its_flags() {
    let mut db = init_database();
    let mut event = timed("a", NOON - 10, NOON + 10);
    event.is_now = false;
    event.is_soon = true;
    save_calendar_events(&mut db, &vec![event], "A");
    let row = &db.calendar_events[0];
    assert_eq!(row.summary, "Event a");
    assert_eq!(row.description.as_deref(), Some("about"));
    assert_eq!(row.html_link.as_deref(), Some("https://example.org"));
    let shown = calendar_events_for_today_at(&db, NOON);
    assert_eq!(shown.len(), 1);
    assert!(shown[0].is_now);
    assert!(!shown[0].is_soon);
    assert_eq!(shown[0].html_link.as_deref(), Some("https://example.org"));
}

#[test]
fn today_query_keeps_events_of_the_utc_day_and_running_ones() {
    let mut db = init_database();
    save_calendar_events(
        &mut db,
        &vec![
            timed("first-second", MIDNIGHT, MIDNIGHT + 1),
            timed("last-second", MIDNIGHT + 86_399, MIDNIGHT + 90_000),
            timed("tomorrow", MIDNIGHT + 86_400, MIDNIGHT + 90_000),
            timed("overnight", MIDNIGHT - 3_600, NOON + 1),
            timed("ended-this-morning", MIDNIGHT - 3_600, NOON - 1),
            timed("ends-now", MIDNIGHT - 3_600, NOON),
            timed("yesterday", MIDNIGHT - 7_200, MIDNIGHT - 3_600),
        ],
        "A",
    );
    let shown: Vec<String> =
        calendar_events_for_today_at(&db, NOON).into_iter().map(|e| e.id).collect();
    assert_eq!(shown, vec!["overnight", "ends-now", "first-second", "last-second"]);
}

#[test]
fn today_query_reads_every_source_in_agenda_order() {
    let mut db = init_database();
    let mut holiday = timed("holiday", MIDNIGHT, MIDNIGHT + 86_400);
    holiday.all_day = true;
    save_calendar_events(&mut db, &vec![timed("late", NOON + 7_200, NOON + 9_000)], "A");
    save_calendar_events(&mut db, &vec![timed("soon", NOON + 600, NOON + 900), holiday], "B");
    let shown = calendar_events_for_today_at(&db, NOON);
    let ids: Vec<&str> = shown.iter().map(|e| e.id.as_str()).collect();
    assert_eq!(ids, vec!["holiday", "soon", "late"]);
    assert!(shown[0].is_now);
    assert!(shown[1].is_soon && !shown[1].is_now);
    assert!(!shown[2].is_soon && !shown[2].is_now);
}

#[test]
fn today_query_by_the_clock() {
    let now = chrono::Utc::now().timestamp();
    let mut db = init_database();
    save_calendar_events(
        &mut db,
        &vec![timed("running", now - 100, now + 100_000), timed("old", now - 900_000, now - 800_000)],
        "A",
    );
    let shown = get_calendar_events_for_today(&db);
    assert_eq!(shown.len(), 1);
    assert_eq!(shown[0].id, "running");
    assert!(shown[0].is_now);
}

#[test]
fn metadata_is_stamped_per_source() {
    let mut db = init_database();
    assert_eq!(get_cache_metadata(&db, "calendar"), None);
    set_cache_metadata(&mut db, "calendar", None, 100);
    set_cache_metadata(&mut db, "github", Some("W/\"abc\""), 200);
    assert_eq!(get_cache_metadata(&db, "calendar"), Some((100, None)));
    assert_eq!(get_cache_metadata(&db, "github"), Some((200, Some("W/\"abc\"".to_string()))));
    set_cache_metadata(&mut db, "calendar", Some("tag"), 300);
    assert_eq!(get_cache_metadata(&db, "calendar"), Some((300, Some("tag".to_string()))));
    assert_eq!(get_cache_metadata(&db, "github"), Some((200, Some("W/\"abc\"".to_string()))));
    assert_eq!(db.cache_metadata.len(), 2);
}

#[test]
fn clearing_the_cache_keeps_settings() {
    let mut db = init_database();
    set_setting(&mut db, "k", "v");
    save_calendar_events(&mut db, &vec![timed("a", NOON, NOON + 60)], "A");
    set_cache_metadata(&mut db, "calendar", None, NOON);
    clear_all_cache(&mut db);
    assert!(db.calendar_events.is_empty());
    assert!(db.cache_metadata.is_empty());
    assert_eq!(get_setting(&db, "k").as_deref(), Some("v"));
}
