//! The tables of the local cache.
//!
//! The cache is a plain value: each table is a list of rows in the order in
//! which they were written. Persisting the value is left to the embedding
//! application.

use crate::models::calendar::CalendarEventView;
use crate::text::opt_text;
use crate::time_window::{is_now, is_soon};
use vstd::prelude::*;

verus! {

/// One row of the settings table, keyed by `key`.
#[derive(Debug)]
pub struct SettingRow {
    pub key: String,
    pub value: String,
}

/// The mathematical content of a [`SettingRow`].
pub struct SettingRowView {
    pub key: Seq<char>,
    pub value: Seq<char>,
}

impl View for SettingRow {
    type V = SettingRowView;

    open spec fn view(&self) -> SettingRowView {
        SettingRowView { key: self.key@, value: self.value@ }
    }
}

/// One row of the calendar table, keyed by `id`; `source` names the
/// partition that the row belongs to.
#[derive(Debug)]
pub struct CalendarRow {
    pub id: String,
    pub source: String,
    pub summary: String,
    pub description: Option<String>,
    pub location: Option<String>,
    pub start_time: i64,
    pub end_time: i64,
    pub all_day: bool,
    pub html_link: Option<String>,
}

/// The mathematical content of a [`CalendarRow`].
pub struct CalendarRowView {
    pub id: Seq<char>,
    pub source: Seq<char>,
    pub summary: Seq<char>,
    pub description: Option<Seq<char>>,
    pub location: Option<Seq<char>>,
    pub start_time: int,
    pub end_time: int,
    pub all_day: bool,
    pub html_link: Option<Seq<char>>,
}

impl View for CalendarRow {
    type V = CalendarRowView;

    open spec fn view(&self) -> CalendarRowView {
        CalendarRowView {
            id: self.id@,
            source: self.source@,
            summary: self.summary@,
            description: opt_text(self.description),
            location: opt_text(self.location),
            start_time: self.start_time as int,
            end_time: self.end_time as int,
            all_day: self.all_day,
            html_link: opt_text(self.html_link),
        }
    }
}

impl CalendarRowView {
    /// The row that stores `event` in the partition `source`. The liveness
    /// flags are not stored.
    pub open spec fn of_event(event: CalendarEventView, source: Seq<char>) -> CalendarRowView {
        CalendarRowView {
            id: event.id,
            source: source,
            summary: event.summary,
            description: event.description,
            location: event.location,
            start_time: event.start_time,
            end_time: event.end_time,
            all_day: event.all_day,
            html_link: event.html_link,
        }
    }

    /// The event that the row stores, with its liveness flags taken at `now`.
    pub open spec fn event_at(self, now: int) -> CalendarEventView {
        CalendarEventView {
            id: self.id,
            summary: self.summary,
            description: self.description,
            location: self.location,
            start_time: self.start_time,
            end_time: self.end_time,
            all_day: self.all_day,
            html_link: self.html_link,
            is_now: is_now(now, self.start_time, self.end_time),
            is_soon: is_soon(now, self.start_time, self.end_time),
        }
    }
}

/// One row of the metadata table, keyed by `source`: when the source was
/// last fetched, and its revalidation token.
#[derive(Debug)]
pub struct MetadataRow {
    pub source: String,
    pub last_fetch: i64,
    pub etag: Option<String>,
}

/// The mathematical content of a [`MetadataRow`].
pub struct MetadataRowView {
    pub source: Seq<char>,
    pub last_fetch: int,
    pub etag: Option<Seq<char>>,
}

impl View for MetadataRow {
    type V = MetadataRowView;

    open spec fn view(&self) -> MetadataRowView {
        MetadataRowView {
            source: self.source@,
            last_fetch: self.last_fetch as int,
            etag: opt_text(self.etag),
        }
    }
}

/// The views of a list of setting rows.
pub open spec fn setting_rows(rows: Seq<SettingRow>) -> Seq<SettingRowView> {
    Seq::new(rows.len(), |i: int| rows[i]@)
}

/// The views of a list of calendar rows.
pub open spec fn calendar_rows(rows: Seq<CalendarRow>) -> Seq<CalendarRowView> {
    Seq::new(rows.len(), |i: int| rows[i]@)
}

/// The views of a list of metadata rows.
pub open spec fn metadata_rows(rows: Seq<MetadataRow>) -> Seq<MetadataRowView> {
    Seq::new(rows.len(), |i: int| rows[i]@)
}

/// The local cache.
#[derive(Debug)]
pub struct Database {
    pub settings: Vec<SettingRow>,
    pub calendar_events: Vec<CalendarRow>,
    pub cache_metadata: Vec<MetadataRow>,
}

/// The mathematical content of a [`Database`].
pub struct DatabaseView {
    pub settings: Seq<SettingRowView>,
    pub calendar_events: Seq<CalendarRowView>,
    pub cache_metadata: Seq<MetadataRowView>,
}

impl DatabaseView {
    /// Every table keeps its key: no two settings share a key, no two
    /// calendar rows share an id, and no two metadata rows share a source.
    pub open spec fn well_formed(self) -> bool {
        &&& forall|i: int, j: int|
            0 <= i < j < self.settings.len() ==> self.settings[i].key != self.settings[j].key
        &&& forall|i: int, j: int|
            0 <= i < j < self.calendar_events.len() ==> self.calendar_events[i].id
                != self.calendar_events[j].id
        &&& forall|i: int, j: int|
            0 <= i < j < self.cache_metadata.len() ==> self.cache_metadata[i].source
                != self.cache_metadata[j].source
    }
}

impl View for Database {
    type V = DatabaseView;

    open spec fn view(&self) -> DatabaseView {
        DatabaseView {
            settings: setting_rows(self.settings@),
            calendar_events: calendar_rows(self.calendar_events@),
            cache_metadata: metadata_rows(self.cache_metadata@),
        }
    }
}

/// Makes a cache whose tables are all empty.
pub fn init_database() -> (db: Database)
    ensures
        db@.settings.len() == 0,
        db@.calendar_events.len() == 0,
        db@.cache_metadata.len() == 0,
        db@.well_formed(),
{
    Database { settings: Vec::new(), calendar_events: Vec::new(), cache_metadata: Vec::new() }
}

} // verus!
