use wtftoday::time_window::{day_number_of, in_today, live_at, soon_at};

#[test]
fn day_number_floors_towards_the_past() {
    assert_eq!(day_number_of(0), 0);
    assert_eq!(day_number_of(86399), 0);
    assert_eq!(day_number_of(86400), 1);
    assert_eq!(day_number_of(-1), -1);
    assert_eq!(day_number_of(-86400), -1);
    assert_eq!(day_number_of(-86401), -2);
}

#[test]
fn liveness_flags_at_fixed_instant() {
    let t: i64 = 1_700_000_000;
    assert!(live_at(t, t - 10, t + 10));
    assert!(!soon_at(t, t - 10, t + 10));
    assert!(!live_at(t, t + 100, t + 200));
    assert!(soon_at(t, t + 100, t + 200));
    assert!(!live_at(t, t + 5000, t + 6000));
    assert!(!soon_at(t, t + 5000, t + 6000));
}

#[test]
fn today_window_edges() {
    let midnight: i64 = 19_700 * 86_400;
    let now = midnight + 3_600;
    assert!(in_today(now, midnight, midnight + 10));
    assert!(in_today(now, midnight + 86_399, midnight + 90_000));
    assert!(!in_today(now, midnight + 86_400, midnight + 90_000));
    assert!(in_today(now, midnight - 7_200, now));
    assert!(!in_today(now, midnight - 7_200, now - 1));
}
