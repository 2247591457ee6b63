use wtftoday::identity::keep_latest;
use wtftoday::models::calendar::CalendarEvent;
use wtftoday::services::calendar_service::CalendarService;

/// 2024-01-15T12:00:00Z
const NOON: i64 = 1_705_320_000;

fn event(id: &str, start: i64) -> CalendarEvent {
    CalendarEvent {
        id: id.to_string(),
        summary: format!("{}@{}", id, start),
        description: None,
        location: None,
        start_time: start,
        end_time: start + 3600,
        all_day: false,
        html_link: None,
        is_now: false,
        is_soon: false,
    }
}

#[test]
fn last_event_of_an_id_stands_for_all() {
    let events = vec![event("a", 1), event("b", 2), event("a", 3), event("c", 4), event("b", 5)];
    let latest = keep_latest(&events);
    let seen: Vec<(String, i64)> = latest.iter().map(|e| (e.id.clone(), e.start_time)).collect();
    assert_eq!(
        seen,
        vec![("a".to_string(), 3), ("c".to_string(), 4), ("b".to_string(), 5)]
    );
}

#[test]
fn distinct_events_are_left_as_they_are() {
    let events = vec![event("a", 3), event("b", 2), event("c", 1)];
    let latest = keep_latest(&events);
    let ids: Vec<&str> = latest.iter().map(|e| e.id.as_str()).collect();
    assert_eq!(ids, vec!["a", "b", "c"]);
    assert!(keep_latest(&Vec::new()).is_empty());
}

#[test]
fn document_with_a_repeated_uid_gives_one_event() {
    let text = [
        "BEGIN:VCALENDAR\r\n",
        "BEGIN:VEVENT\r\nUID:same\r\nSUMMARY:First\r\nDTSTART:20240115T090000Z\r\nEND:VEVENT\r\n",
        "BEGIN:VEVENT\r\nUID:other\r\nSUMMARY:Other\r\nDTSTART:20240115T100000Z\r\nEND:VEVENT\r\n",
        "BEGIN:VEVENT\r\nUID:same\r\nSUMMARY:Second\r\nDTSTART:20240115T110000Z\r\nEND:VEVENT\r\n",
        "END:VCALENDAR\r\n",
    ]
    .concat();
    let events = CalendarService::new().parse_ics_content_at(&text, NOON).unwrap();
    let seen: Vec<(&str, &str)> =
        events.iter().map(|e| (e.id.as_str(), e.summary.as_str())).collect();
    assert_eq!(seen, vec![("other", "Other"), ("same", "Second")]);
}

#[test]
fn a_dropped_repeat_does_not_hide_the_kept_event() {
    // The second VEVENT of the UID has no readable start and is dropped
    // before ids are compared, so the first one stays.
    let text = [
        "BEGIN:VCALENDAR\r\n",
        "BEGIN:VEVENT\r\nUID:same\r\nSUMMARY:First\r\nDTSTART:20240115T090000Z\r\nEND:VEVENT\r\n",
        "BEGIN:VEVENT\r\nUID:same\r\nSUMMARY:Second\r\nDTSTART:whenever\r\nEND:VEVENT\r\n",
        "END:VCALENDAR\r\n",
    ]
    .concat();
    let events = CalendarService::new().parse_ics_content_at(&text, NOON).unwrap();
    assert_eq!(events.len(), 1);
    assert_eq!(events[0].summary, "First");
}
