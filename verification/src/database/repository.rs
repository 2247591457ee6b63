//! Reading and writing the tables of the local cache.
//!
//! Writes follow insert-or-replace: a new row takes the place of the row
//! with the same key, and stands last. Saving the events of a source first
//! removes every row of that source, so a source's partition always holds
//! exactly what was last saved for it.

use crate::agenda::{agenda_order, event_views, is_ordered, sort_events};
use crate::database::schema::{
    calendar_rows, metadata_rows, setting_rows, CalendarRow, CalendarRowView, Database,
    DatabaseView, MetadataRow, MetadataRowView, SettingRow, SettingRowView,
};
use crate::database::partitions::lemma_save_keeps_ids_apart;
use crate::filters::lemma_replace_keeps_apart;
use crate::models::calendar::{CalendarEvent, CalendarEventView};
use crate::text::{copy_opt_text, opt_text, same_text};
use crate::time_window::{in_today, live_at, overlaps_today, soon_at};
use crate::timekeeping::current_instant;
use vstd::prelude::*;
use vstd::string::*;

verus! {

/// The value of the last setting row with the given key.
pub open spec fn setting_value(rows: Seq<SettingRowView>, key: Seq<char>) -> Option<Seq<char>>
    decreases rows.len(),
{
    if rows.len() == 0 {
        None
    } else if rows.last().key == key {
        Some(rows.last().value)
    } else {
        setting_value(rows.drop_last(), key)
    }
}

/// The settings after writing `value` under `key`.
pub open spec fn put_setting(rows: Seq<SettingRowView>, key: Seq<char>, value: Seq<char>) -> Seq<
    SettingRowView,
> {
    rows.filter(|r: SettingRowView| r.key != key).push(SettingRowView { key: key, value: value })
}

/// The rows that do not belong to `source`.
pub open spec fn without_source(rows: Seq<CalendarRowView>, source: Seq<char>) -> Seq<
    CalendarRowView,
> {
    rows.filter(|r: CalendarRowView| r.source != source)
}

/// The rows that belong to `source`.
pub open spec fn partition(rows: Seq<CalendarRowView>, source: Seq<char>) -> Seq<CalendarRowView> {
    rows.filter(|r: CalendarRowView| r.source == source)
}

/// The rows after writing `row`: it replaces the row with its id, if any.
pub open spec fn upsert_row(rows: Seq<CalendarRowView>, row: CalendarRowView) -> Seq<
    CalendarRowView,
> {
    rows.filter(|r: CalendarRowView| r.id != row.id).push(row)
}

/// The rows after writing each event, in order, into the partition `source`.
pub open spec fn upsert_events(
    rows: Seq<CalendarRowView>,
    events: Seq<CalendarEventView>,
    source: Seq<char>,
) -> Seq<CalendarRowView>
    decreases events.len(),
{
    if events.len() == 0 {
        rows
    } else {
        upsert_row(
            upsert_events(rows, events.drop_last(), source),
            CalendarRowView::of_event(events.last(), source),
        )
    }
}

/// The rows after the partition `source` is replaced by `events`.
pub open spec fn replace_partition(
    rows: Seq<CalendarRowView>,
    events: Seq<CalendarEventView>,
    source: Seq<char>,
) -> Seq<CalendarRowView> {
    upsert_events(without_source(rows, source), events, source)
}

/// The rows whose event belongs to the day of `now`.
pub open spec fn todays_rows(rows: Seq<CalendarRowView>, now: int) -> Seq<CalendarRowView> {
    rows.filter(|r: CalendarRowView| overlaps_today(now, r.start_time, r.end_time))
}

/// The events of the given rows, flagged at `now`.
pub open spec fn events_at(rows: Seq<CalendarRowView>, now: int) -> Seq<CalendarEventView> {
    Seq::new(rows.len(), |i: int| rows[i].event_at(now))
}

/// What the cache shows for the day of `now`: the events of every source
/// that belong to that day, flagged at `now`, in agenda order.
pub open spec fn todays_events(rows: Seq<CalendarRowView>, now: int) -> Seq<CalendarEventView> {
    agenda_order(events_at(todays_rows(rows, now), now))
}

/// The last-fetch instant and token of the last metadata row of `source`.
pub open spec fn metadata_of(rows: Seq<MetadataRowView>, source: Seq<char>) -> Option<
    (int, Option<Seq<char>>),
>
    decreases rows.len(),
{
    if rows.len() == 0 {
        None
    } else if rows.last().source == source {
        Some((rows.last().last_fetch, rows.last().etag))
    } else {
        metadata_of(rows.drop_last(), source)
    }
}

/// The metadata after stamping `source` with `now` and `etag`.
pub open spec fn put_metadata(
    rows: Seq<MetadataRowView>,
    source: Seq<char>,
    now: int,
    etag: Option<Seq<char>>,
) -> Seq<MetadataRowView> {
    rows.filter(|r: MetadataRowView| r.source != source).push(
        MetadataRowView { source: source, last_fetch: now, etag: etag },
    )
}

/// The view of optional metadata.
pub open spec fn opt_metadata(metadata: Option<(i64, Option<String>)>) -> Option<
    (int, Option<Seq<char>>),
> {
    match metadata {
        Some((last_fetch, etag)) => Some((last_fetch as int, opt_text(etag))),
        None => None,
    }
}

/// Copies a calendar row.
fn copy_calendar_row(row: &CalendarRow) -> (copy: CalendarRow)
    ensures
        copy == *row,
{
    CalendarRow {
        id: row.id.clone(),
        source: row.source.clone(),
        summary: row.summary.clone(),
        description: copy_opt_text(&row.description),
        location: copy_opt_text(&row.location),
        start_time: row.start_time,
        end_time: row.end_time,
        all_day: row.all_day,
        html_link: copy_opt_text(&row.html_link),
    }
}

/// Reads the value stored under `key`.
pub fn get_setting(db: &Database, key: &str) -> (value: Option<String>)
    ensures
        opt_text(value) == setting_value(db@.settings, key@),
{
    let ghost all = db@.settings;
    let mut i: usize = db.settings.len();
    proof {
        assert(all.take(i as int) =~= all);
    }
    while i > 0
        invariant
            i <= db.settings.len(),
            all == db@.settings,
            setting_value(all, key@) == setting_value(all.take(i as int), key@),
        decreases i,
    {
        proof {
            assert(all.take(i as int).last() == db.settings@[i - 1]@);
            assert(all.take(i as int).drop_last() =~= all.take(i - 1));
        }
        if same_text(db.settings[i - 1].key.as_str(), key) {
            return Some(db.settings[i - 1].value.clone());
        }
        i -= 1;
    }
    None
}

/// Writes `value` under `key`, replacing what was stored there.
pub fn set_setting(db: &mut Database, key: &str, value: &str)
    ensures
        final(db)@ == (DatabaseView {
            settings: put_setting(old(db)@.settings, key@, value@),
            ..old(db)@
        }),
        old(db)@.well_formed() ==> final(db)@.well_formed(),
{
    let mut kept: Vec<SettingRow> = Vec::new();
    let ghost all = db@.settings;
    let mut i: usize = 0;
    proof {
        reveal(Seq::filter);
    }
    while i < db.settings.len()
        invariant
            i <= db.settings.len(),
            *db == *old(db),
            all == db@.settings,
            setting_rows(kept@) == all.take(i as int).filter(|r: SettingRowView| r.key != key@),
        decreases db.settings.len() - i,
    {
        proof {
            reveal(Seq::filter);
            assert(all.take(i + 1).drop_last() =~= all.take(i as int));
            assert(all.take(i + 1).last() == db.settings@[i as int]@);
        }
        let ghost before = setting_rows(kept@);
        if !same_text(db.settings[i].key.as_str(), key) {
            let row = SettingRow {
                key: db.settings[i].key.clone(),
                value: db.settings[i].value.clone(),
            };
            kept.push(row);
            proof {
                assert(setting_rows(kept@) =~= before.push(db.settings@[i as int]@));
            }
        }
        i += 1;
    }
    let ghost before = setting_rows(kept@);
    kept.push(SettingRow { key: key.to_owned(), value: value.to_owned() });
    proof {
        assert(all.take(db.settings.len() as int) =~= all);
        assert(setting_rows(kept@) =~= before.push(SettingRowView { key: key@, value: value@ }));
        if old(db)@.well_formed() {
            lemma_replace_keeps_apart(
                all,
                |r: SettingRowView| r.key != key@,
                |a: SettingRowView, b: SettingRowView| a.key == b.key,
                SettingRowView { key: key@, value: value@ },
            );
        }
    }
    db.settings = kept;
}

/// The rows of `rows` that are not of `source`.
fn rows_without_source(rows: &Vec<CalendarRow>, source: &str) -> (kept: Vec<CalendarRow>)
    ensures
        calendar_rows(kept@) == without_source(calendar_rows(rows@), source@),
{
    let mut kept: Vec<CalendarRow> = Vec::new();
    let ghost all = calendar_rows(rows@);
    let mut i: usize = 0;
    proof {
        reveal(Seq::filter);
    }
    while i < rows.len()
        invariant
            i <= rows.len(),
            all == calendar_rows(rows@),
            calendar_rows(kept@) == without_source(all.take(i as int), source@),
        decreases rows.len() - i,
    {
        proof {
            reveal(Seq::filter);
            assert(all.take(i + 1).drop_last() =~= all.take(i as int));
            assert(all.take(i + 1).last() == rows@[i as int]@);
        }
        let ghost before = calendar_rows(kept@);
        if !same_text(rows[i].source.as_str(), source) {
            kept.push(copy_calendar_row(&rows[i]));
            proof {
                assert(calendar_rows(kept@) =~= before.push(rows@[i as int]@));
            }
        }
        i += 1;
    }
    proof {
        assert(all.take(rows.len() as int) =~= all);
    }
    kept
}

/// Writes one row, replacing the row with its id.
fn write_row(rows: &Vec<CalendarRow>, row: CalendarRow) -> (written: Vec<CalendarRow>)
    ensures
        calendar_rows(written@) == upsert_row(calendar_rows(rows@), row@),
{
    let mut kept: Vec<CalendarRow> = Vec::new();
    let ghost all = calendar_rows(rows@);
    let mut i: usize = 0;
    proof {
        reveal(Seq::filter);
    }
    while i < rows.len()
        invariant
            i <= rows.len(),
            all == calendar_rows(rows@),
            calendar_rows(kept@) == all.take(i as int).filter(|r: CalendarRowView| r.id != row@.id),
        decreases rows.len() - i,
    {
        proof {
            reveal(Seq::filter);
            assert(all.take(i + 1).drop_last() =~= all.take(i as int));
            assert(all.take(i + 1).last() == rows@[i as int]@);
        }
        let ghost before = calendar_rows(kept@);
        if !same_text(rows[i].id.as_str(), row.id.as_str()) {
            kept.push(copy_calendar_row(&rows[i]));
            proof {
                assert(calendar_rows(kept@) =~= before.push(rows@[i as int]@));
            }
        }
        i += 1;
    }
    let ghost before = calendar_rows(kept@);
    let ghost row_view = row@;
    kept.push(row);
    proof {
        assert(all.take(rows.len() as int) =~= all);
        assert(calendar_rows(kept@) =~= before.push(row_view));
    }
    kept
}

/// Replaces the partition `source` by `events`.
///
/// Every row of `source` is removed; then each event is written in order, a
/// later event taking the place of an earlier one with the same id.
pub fn save_calendar_events(db: &mut Database, events: &Vec<CalendarEvent>, source: &str)
    ensures
        final(db)@ == (DatabaseView {
            calendar_events: replace_partition(
                old(db)@.calendar_events,
                event_views(events@),
                source@,
            ),
            ..old(db)@
        }),
        old(db)@.well_formed() ==> final(db)@.well_formed(),
{
    let mut rows = rows_without_source(&db.calendar_events, source);
    let ghost cleared = calendar_rows(rows@);
    let ghost all = event_views(events@);
    let mut i: usize = 0;
    while i < events.len()
        invariant
            i <= events.len(),
            *db == *old(db),
            all == event_views(events@),
            calendar_rows(rows@) == upsert_events(cleared, all.take(i as int), source@),
        decreases events.len() - i,
    {
        proof {
            assert(all.take(i + 1).drop_last() =~= all.take(i as int));
            assert(all.take(i + 1).last() == events@[i as int]@);
        }
        let event = &events[i];
        let row = CalendarRow {
            id: event.id.clone(),
            source: source.to_owned(),
            summary: event.summary.clone(),
            description: copy_opt_text(&event.description),
            location: copy_opt_text(&event.location),
            start_time: event.start_time,
            end_time: event.end_time,
            all_day: event.all_day,
            html_link: copy_opt_text(&event.html_link),
        };
        rows = write_row(&rows, row);
        i += 1;
    }
    proof {
        assert(all.take(events.len() as int) =~= all);
        if old(db)@.well_formed() {
            lemma_save_keeps_ids_apart(old(db)@.calendar_events, all, source@);
        }
    }
    db.calendar_events = rows;
}

/// Reads what the cache shows for the day of `now`.
pub fn calendar_events_for_today_at(db: &Database, now: i64) -> (events: Vec<CalendarEvent>)
    ensures
        event_views(events@) == todays_events(db@.calendar_events, now as int),
        is_ordered(event_views(events@)),
{
    let mut found: Vec<CalendarEvent> = Vec::new();
    let ghost all = db@.calendar_events;
    let mut i: usize = 0;
    proof {
        reveal(Seq::filter);
    }
    while i < db.calendar_events.len()
        invariant
            i <= db.calendar_events.len(),
            all == db@.calendar_events,
            event_views(found@) == events_at(todays_rows(all.take(i as int), now as int), now as int),
        decreases db.calendar_events.len() - i,
    {
        proof {
            reveal(Seq::filter);
            assert(all.take(i + 1).drop_last() =~= all.take(i as int));
            assert(all.take(i + 1).last() == db.calendar_events@[i as int]@);
        }
        let row = &db.calendar_events[i];
        let ghost before = event_views(found@);
        if in_today(now, row.start_time, row.end_time) {
            let event = CalendarEvent {
                id: row.id.clone(),
                summary: row.summary.clone(),
                description: copy_opt_text(&row.description),
                location: copy_opt_text(&row.location),
                start_time: row.start_time,
                end_time: row.end_time,
                all_day: row.all_day,
                html_link: copy_opt_text(&row.html_link),
                is_now: live_at(now, row.start_time, row.end_time),
                is_soon: soon_at(now, row.start_time, row.end_time),
            };
            found.push(event);
            proof {
                assert(event_views(found@) =~= before.push(row@.event_at(now as int)));
                assert(events_at(
                    todays_rows(all.take(i as int), now as int).push(row@),
                    now as int,
                ) =~= before.push(row@.event_at(now as int)));
            }
        }
        i += 1;
    }
    proof {
        assert(all.take(db.calendar_events.len() as int) =~= all);
    }
    sort_events(&found)
}

/// Reads what the cache shows for today, by the machine's clock.
///
/// The result is what [`calendar_events_for_today_at`] gives for some
/// instant that fits the clock's 64-bit reading.
pub fn get_calendar_events_for_today(db: &Database) -> (events: Vec<CalendarEvent>)
    ensures
        is_ordered(event_views(events@)),
        exists|now: int|
            i64::MIN <= now <= i64::MAX && event_views(events@) == #[trigger] todays_events(
                db@.calendar_events,
                now,
            ),
{
    let now = current_instant();
    calendar_events_for_today_at(db, now)
}

/// Stamps `source` as fetched at `now`, with its revalidation token.
pub fn set_cache_metadata(db: &mut Database, source: &str, etag: Option<&str>, now: i64)
    ensures
        final(db)@ == (DatabaseView {
            cache_metadata: put_metadata(
                old(db)@.cache_metadata,
                source@,
                now as int,
                match etag {
                    Some(tag) => Some(tag@),
                    None => None,
                },
            ),
            ..old(db)@
        }),
        old(db)@.well_formed() ==> final(db)@.well_formed(),
{
    let mut kept: Vec<MetadataRow> = Vec::new();
    let ghost all = db@.cache_metadata;
    let mut i: usize = 0;
    proof {
        reveal(Seq::filter);
    }
    while i < db.cache_metadata.len()
        invariant
            i <= db.cache_metadata.len(),
            *db == *old(db),
            all == db@.cache_metadata,
            metadata_rows(kept@) == all.take(i as int).filter(
                |r: MetadataRowView| r.source != source@,
            ),
        decreases db.cache_metadata.len() - i,
    {
        proof {
            reveal(Seq::filter);
            assert(all.take(i + 1).drop_last() =~= all.take(i as int));
            assert(all.take(i + 1).last() == db.cache_metadata@[i as int]@);
        }
        let ghost before = metadata_rows(kept@);
        if !same_text(db.cache_metadata[i].source.as_str(), source) {
            let row = MetadataRow {
                source: db.cache_metadata[i].source.clone(),
                last_fetch: db.cache_metadata[i].last_fetch,
                etag: copy_opt_text(&db.cache_metadata[i].etag),
            };
            kept.push(row);
            proof {
                assert(metadata_rows(kept@) =~= before.push(db.cache_metadata@[i as int]@));
            }
        }
        i += 1;
    }
    let stored: Option<String> = match etag {
        Some(tag) => Some(tag.to_owned()),
        None => None,
    };
    let ghost before = metadata_rows(kept@);
    let row = MetadataRow { source: source.to_owned(), last_fetch: now, etag: stored };
    let ghost row_view = row@;
    kept.push(row);
    proof {
        assert(all.take(db.cache_metadata.len() as int) =~= all);
        assert(metadata_rows(kept@) =~= before.push(row_view));
        if old(db)@.well_formed() {
            lemma_replace_keeps_apart(
                all,
                |r: MetadataRowView| r.source != source@,
                |a: MetadataRowView, b: MetadataRowView| a.source == b.source,
                row_view,
            );
        }
    }
    db.cache_metadata = kept;
}

/// Reads when `source` was last fetched, and its revalidation token.
pub fn get_cache_metadata(db: &Database, source: &str) -> (metadata: Option<(i64, Option<String>)>)
    ensures
        opt_metadata(metadata) == metadata_of(db@.cache_metadata, source@),
{
    let ghost all = db@.cache_metadata;
    let mut i: usize = db.cache_metadata.len();
    proof {
        assert(all.take(i as int) =~= all);
    }
    while i > 0
        invariant
            i <= db.cache_metadata.len(),
            all == db@.cache_metadata,
            metadata_of(all, source@) == metadata_of(all.take(i as int), source@),
        decreases i,
    {
        proof {
            assert(all.take(i as int).last() == db.cache_metadata@[i - 1]@);
            assert(all.take(i as int).drop_last() =~= all.take(i - 1));
        }
        let row = &db.cache_metadata[i - 1];
        if same_text(row.source.as_str(), source) {
            return Some((row.last_fetch, copy_opt_text(&row.etag)));
        }
        i -= 1;
    }
    None
}

/// Empties every cache table; the settings stay.
pub fn clear_all_cache(db: &mut Database)
    ensures
        final(db)@ == (DatabaseView {
            calendar_events: Seq::empty(),
            cache_metadata: Seq::empty(),
            ..old(db)@
        }),
        old(db)@.well_formed() ==> final(db)@.well_formed(),
{
    db.calendar_events = Vec::new();
    db.cache_metadata = Vec::new();
    proof {
        assert(calendar_rows(db.calendar_events@) =~= Seq::empty());
        assert(metadata_rows(db.cache_metadata@) =~= Seq::empty());
    }
}

} // verus!
