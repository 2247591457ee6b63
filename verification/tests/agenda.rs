use wtftoday::agenda::{may_precede, sort_events};
use wtftoday::models::calendar::CalendarEvent;

fn event(id: &str, start: i64, all_day: bool) -> CalendarEvent {
    CalendarEvent {
        id: id.to_string(),
        summary: id.to_string(),
        description: None,
        location: None,
        start_time: start,
        end_time: start + 3600,
        all_day,
        html_link: None,
        is_now: false,
        is_soon: false,
    }
}

fn ids(events: &Vec<CalendarEvent>) -> Vec<String> {
    events.iter().map(|e| e.id.clone()).collect()
}

#[test]
fn all_day_event_sorts_first_regardless_of_start() {
    let d1: i64 = 1_700_000_000;
    let d2: i64 = d1 + 50_000;
    let sorted = sort_events(&vec![event("timed", d1, false), event("holiday", d2, true)]);
    assert_eq!(ids(&sorted), vec!["holiday", "timed"]);
    let sorted = sort_events(&vec![event("holiday", d2, true), event("timed", d1, false)]);
    assert_eq!(ids(&sorted), vec!["holiday", "timed"]);
}

#[test]
fn events_sort_by_start_within_each_group() {
    let events = vec![
        event("t3", 300, false),
        event("a2", 900, true),
        event("t1", 100, false),
        event("a1", 800, true),
        event("t2", 200, false),
    ];
    let sorted = sort_events(&events);
    assert_eq!(ids(&sorted), vec!["a1", "a2", "t1", "t2", "t3"]);
}

#[test]
fn ties_keep_their_incoming_order() {
    let events = vec![
        event("x", 100, false),
        event("y", 100, false),
        event("z", 50, false),
        event("w", 100, false),
    ];
    let sorted = sort_events(&events);
    assert_eq!(ids(&sorted), vec!["z", "x", "y", "w"]);
}

#[test]
fn sorting_keeps_every_event_and_its_content() {
    let events = vec![event("b", 2, false), event("a", 1, false)];
    let sorted = sort_events(&events);
    assert_eq!(sorted.len(), 2);
    assert_eq!(sorted[0].id, "a");
    assert_eq!(sorted[0].start_time, 1);
    assert_eq!(sorted[0].end_time, 3601);
    assert_eq!(sorted[1].id, "b");
    assert!(sort_events(&Vec::new()).is_empty());
}

#[test]
fn may_precede_is_the_agenda_relation() {
    assert!(may_precede(&event("a", 900, true), &event("t", 100, false)));
    assert!(!may_precede(&event("t", 100, false), &event("a", 900, true)));
    assert!(may_precede(&event("t", 100, false), &event("u", 100, false)));
    assert!(may_precede(&event("t", 100, false), &event("u", 101, false)));
    assert!(!may_precede(&event("u", 101, false), &event("t", 100, false)));
}
