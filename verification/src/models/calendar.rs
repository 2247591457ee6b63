//! Calendar events and the configuration of their source.

use crate::text::{copy_opt_text, opt_text};
use crate::time_window::{is_now, is_soon};
use vstd::prelude::*;
use vstd::string::*;

verus! {

/// A normalized calendar event.
///
/// `start_time` and `end_time` are UTC instants in seconds since the epoch.
/// `is_now` and `is_soon` are derived from the instant at which the event was
/// last read; they are not part of what a source reports.
#[derive(Debug)]
pub struct CalendarEvent {
    pub id: String,
    pub summary: String,
    pub description: Option<String>,
    pub location: Option<String>,
    pub start_time: i64,
    pub end_time: i64,
    pub all_day: bool,
    pub html_link: Option<String>,
    pub is_now: bool,
    pub is_soon: bool,
}

/// The mathematical content of a [`CalendarEvent`].
pub struct CalendarEventView {
    pub id: Seq<char>,
    pub summary: Seq<char>,
    pub description: Option<Seq<char>>,
    pub location: Option<Seq<char>>,
    pub start_time: int,
    pub end_time: int,
    pub all_day: bool,
    pub html_link: Option<Seq<char>>,
    pub is_now: bool,
    pub is_soon: bool,
}

impl View for CalendarEvent {
    type V = CalendarEventView;

    open spec fn view(&self) -> CalendarEventView {
        CalendarEventView {
            id: self.id@,
            summary: self.summary@,
            description: opt_text(self.description),
            location: opt_text(self.location),
            start_time: self.start_time as int,
            end_time: self.end_time as int,
            all_day: self.all_day,
            html_link: opt_text(self.html_link),
            is_now: self.is_now,
            is_soon: self.is_soon,
        }
    }
}

impl DeepView for CalendarEvent {
    type V = CalendarEventView;

    open spec fn deep_view(&self) -> CalendarEventView {
        self.view()
    }
}

impl CalendarEventView {
    /// The same event with its liveness flags taken at `now`.
    pub open spec fn flagged_at(self, now: int) -> CalendarEventView {
        CalendarEventView {
            is_now: is_now(now, self.start_time, self.end_time),
            is_soon: is_soon(now, self.start_time, self.end_time),
            ..self
        }
    }

    /// The liveness flags are those that hold at `now`.
    pub open spec fn flags_hold_at(self, now: int) -> bool {
        self == self.flagged_at(now)
    }
}

impl Clone for CalendarEvent {
    fn clone(&self) -> (copy: CalendarEvent)
        ensures
            copy == *self,
    {
        CalendarEvent {
            id: self.id.clone(),
            summary: self.summary.clone(),
            description: copy_opt_text(&self.description),
            location: copy_opt_text(&self.location),
            start_time: self.start_time,
            end_time: self.end_time,
            all_day: self.all_day,
            html_link: copy_opt_text(&self.html_link),
            is_now: self.is_now,
            is_soon: self.is_soon,
        }
    }
}

/// Where calendar events come from.
///
/// `source_type` is `"ics_file"`, `"ics_url"` or `"none"`; any other text is
/// treated as `"none"`.
#[derive(Debug)]
pub struct CalendarConfig {
    pub source_type: String,
    pub ics_path: Option<String>,
    pub ics_url: Option<String>,
}

/// The mathematical content of a [`CalendarConfig`].
pub struct CalendarConfigView {
    pub source_type: Seq<char>,
    pub ics_path: Option<Seq<char>>,
    pub ics_url: Option<Seq<char>>,
}

impl View for CalendarConfig {
    type V = CalendarConfigView;

    open spec fn view(&self) -> CalendarConfigView {
        CalendarConfigView {
            source_type: self.source_type@,
            ics_path: opt_text(self.ics_path),
            ics_url: opt_text(self.ics_url),
        }
    }
}

impl Clone for CalendarConfig {
    fn clone(&self) -> (copy: CalendarConfig)
        ensures
            copy == *self,
    {
        CalendarConfig {
            source_type: self.source_type.clone(),
            ics_path: copy_opt_text(&self.ics_path),
            ics_url: copy_opt_text(&self.ics_url),
        }
    }
}

impl Default for CalendarConfig {
    /// No calendar source is configured.
    fn default() -> (config: CalendarConfig)
        ensures
            config@ == (CalendarConfigView { source_type: "none"@, ics_path: None, ics_url: None }),
    {
        CalendarConfig { source_type: "none".to_owned(), ics_path: None, ics_url: None }
    }
}

} // verus!
