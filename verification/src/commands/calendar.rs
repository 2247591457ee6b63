//! Fetching calendar events into the cache, and reading them back.

use crate::agenda::{agenda_order, event_views, is_ordered, lemma_ordered_is_fixed};
use crate::civil::{lemma_valid_date_in_range, CivilDate};
use crate::database::partitions::{
    flagged, lemma_empty_cache_shows_nothing, lemma_save_is_idempotent,
    lemma_saved_events_are_read_back, of_today,
};
use crate::database::repository::{
    calendar_events_for_today_at, put_metadata, replace_partition, save_calendar_events,
    set_cache_metadata, todays_events,
};
use crate::database::schema::{CalendarRowView, Database, DatabaseView, MetadataRowView};
use crate::error::{AppError, ErrorKind};
use crate::filters::{lemma_filter_all, lemma_filter_passes};
use crate::ics::{ical_calendars, IcsPropertyView};
use crate::identity::{ids_differ, lemma_latest_of_distinct};
use crate::models::calendar::{
    CalendarConfig, CalendarConfigView, CalendarEvent, CalendarEventView,
};
use crate::services::calendar_facts::lemma_all_day_sorts_first;
use crate::services::calendar_service::{
    all_events, assemble, event_fields, field_reading, fixed_bindings, ingests, kept_events,
    normalized_events, representable, time_reading, title_of, Binding, CalendarService, Reading,
};
use crate::text::same_text;
use crate::time_window::{day_number, overlaps_today, today_start};
use crate::timekeeping::parsed_date;
use vstd::prelude::*;
use vstd::string::*;

verus! {

/// Where the raw calendar text is to be fetched from.
#[derive(Debug)]
pub enum CalendarSource {
    /// An HTTP GET of this URL.
    Url(String),
    /// A read of this local path.
    File(String),
    /// No source is set up: there is nothing to fetch.
    NotConfigured,
}

/// What a configuration asks for.
pub enum SourcePlan {
    Url(Seq<char>),
    File(Seq<char>),
    NotConfigured,
    /// The source type is set but its parameter is missing; the text is the
    /// message of the validation error.
    Unusable(Seq<char>),
}

/// Reads the plan out of a configuration: `"ics_url"` needs a URL,
/// `"ics_file"` needs a path, and every other source type means that no
/// source is set up.
pub open spec fn planned_source(config: CalendarConfigView) -> SourcePlan {
    if config.source_type == "ics_url"@ {
        match config.ics_url {
            Some(url) => SourcePlan::Url(url),
            None => SourcePlan::Unusable("Calendar URL not configured"@),
        }
    } else if config.source_type == "ics_file"@ {
        match config.ics_path {
            Some(path) => SourcePlan::File(path),
            None => SourcePlan::Unusable("Calendar file path not configured"@),
        }
    } else {
        SourcePlan::NotConfigured
    }
}

/// The result carries out the plan.
pub open spec fn follows_plan(plan: SourcePlan, source: Result<CalendarSource, AppError>) -> bool {
    match plan {
        SourcePlan::Url(url) => source matches Ok(CalendarSource::Url(u)) && u@ == url,
        SourcePlan::File(path) => source matches Ok(CalendarSource::File(p)) && p@ == path,
        SourcePlan::NotConfigured => source matches Ok(CalendarSource::NotConfigured),
        SourcePlan::Unusable(message) => source matches Err(error) && error.kind()
            == ErrorKind::Validation && error.text() == message,
    }
}

/// Decides where the raw calendar text is to be fetched from.
pub fn calendar_source(config: &CalendarConfig) -> (source: Result<CalendarSource, AppError>)
    ensures
        follows_plan(planned_source(config@), source),
{
    if same_text(config.source_type.as_str(), "ics_url") {
        match &config.ics_url {
            Some(url) => Ok(CalendarSource::Url(url.clone())),
            None => Err(AppError::Validation("Calendar URL not configured".to_owned())),
        }
    } else if same_text(config.source_type.as_str(), "ics_file") {
        match &config.ics_path {
            Some(path) => Ok(CalendarSource::File(path.clone())),
            None => Err(AppError::Validation("Calendar file path not configured".to_owned())),
        }
    } else {
        Ok(CalendarSource::NotConfigured)
    }
}

/// The cache after a successful fetch: the partition of the source type
/// holds exactly the fetched events, and the calendar is stamped as fetched
/// at `now`.
pub open spec fn after_fetch(
    before: DatabaseView,
    events: Seq<CalendarEventView>,
    source_type: Seq<char>,
    now: int,
) -> DatabaseView {
    DatabaseView {
        calendar_events: replace_partition(before.calendar_events, events, source_type),
        cache_metadata: put_metadata(before.cache_metadata, "calendar"@, now, None),
        ..before
    }
}

/// The fetch brought events in and wrote them to the cache.
pub open spec fn fetch_succeeds(config: CalendarConfigView, content: Result<String, AppError>) -> bool {
    &&& planned_source(config) is Url || planned_source(config) is File
    &&& content matches Ok(text)
    &&& ical_calendars(text@) is Some
}

/// The fetch failed with an error of the given class.
pub open spec fn fails_with(fetched: Result<Vec<CalendarEvent>, AppError>, kind: ErrorKind) -> bool {
    &&& fetched matches Err(error)
    &&& error.kind() == kind
}

/// What [`fetch_calendar_events`] does, case by case.
pub open spec fn fetch_outcome(
    before: DatabaseView,
    after: DatabaseView,
    config: CalendarConfigView,
    content: Result<String, AppError>,
    now: int,
    fetched: Result<Vec<CalendarEvent>, AppError>,
) -> bool {
    match planned_source(config) {
        SourcePlan::Unusable(message) => {
            &&& after == before
            &&& fails_with(fetched, ErrorKind::Validation)
            &&& fetched->Err_0.text() == message
        },
        SourcePlan::NotConfigured => {
            &&& after == before
            &&& fetched matches Ok(events)
            &&& events@.len() == 0
        },
        _ => match content {
            Err(failure) => {
                &&& after == before
                &&& fetched == Err::<Vec<CalendarEvent>, AppError>(failure)
            },
            Ok(text) => match ical_calendars(text@) {
                None => {
                    &&& after == before
                    &&& fails_with(fetched, ErrorKind::Parse)
                    &&& "iCal parse error: "@.is_prefix_of(fetched->Err_0.text())
                },
                Some(document) => {
                    &&& fetched matches Ok(events)
                    &&& ingests(all_events(document), now, event_views(events@))
                    &&& is_ordered(event_views(events@))
                    &&& after == after_fetch(before, event_views(events@), config.source_type, now)
                },
            },
        },
    }
}

/// Completes a fetch of the configured calendar.
///
/// `content` is what the source returned for the plan of
/// [`calendar_source`]: the raw text, or the transport failure. With no
/// source set up the result is empty and the cache stays as it is. A
/// transport failure and a parse error are handed on, and the cache stays
/// as it is. Otherwise the normalized events replace the source's partition,
/// the calendar is stamped as fetched, and the events are returned.
pub fn fetch_calendar_events(
    db: &mut Database,
    config: &CalendarConfig,
    content: Result<String, AppError>,
    now: i64,
) -> (fetched: Result<Vec<CalendarEvent>, AppError>)
    ensures
        fetch_outcome(old(db)@, final(db)@, config@, content, now as int, fetched),
        fetched is Ok <==> planned_source(config@) is NotConfigured || fetch_succeeds(
            config@,
            content,
        ),
{
    let source = match calendar_source(config) {
        Ok(source) => source,
        Err(error) => {
            return Err(error);
        },
    };
    match source {
        CalendarSource::NotConfigured => {
            return Ok(Vec::new());
        },
        _ => {},
    }
    let text = match content {
        Ok(text) => text,
        Err(failure) => {
            return Err(failure);
        },
    };
    let service = CalendarService::new();
    let events = match service.parse_ics_content_at(text.as_str(), now) {
        Ok(events) => events,
        Err(error) => {
            return Err(error);
        },
    };
    save_calendar_events(db, &events, config.source_type.as_str());
    set_cache_metadata(db, "calendar", None, now);
    Ok(events)
}

/// Reads the cached events that belong to the day of `now`, without
/// fetching anything.
pub fn get_cached_calendar_events(db: &Database, now: i64) -> (events: Vec<CalendarEvent>)
    ensures
        event_views(events@) == todays_events(db@.calendar_events, now as int),
        is_ordered(event_views(events@)),
{
    calendar_events_for_today_at(db, now)
}

/// What the cache shows after a fetch that brought nothing in: nothing
/// when no source is set up, else the cached events of the day of `now`.
pub open spec fn stale_events(
    config: CalendarConfigView,
    rows: Seq<CalendarRowView>,
    now: int,
) -> Seq<CalendarEventView> {
    if planned_source(config) is NotConfigured {
        Seq::empty()
    } else {
        todays_events(rows, now)
    }
}

/// Refreshes the calendar and never fails.
///
/// When the fetch succeeds, the result is what it brought in. With no
/// source set up the result is empty. In every other case (the source's
/// parameter is missing, the transport failed, the text is no calendar) the
/// result is what the cache shows for the day of `now`, which is empty when
/// nothing was ever cached. Only a successful fetch changes the cache.
pub fn refresh_calendar(
    db: &mut Database,
    config: &CalendarConfig,
    content: Result<String, AppError>,
    now: i64,
) -> (events: Vec<CalendarEvent>)
    ensures
        is_ordered(event_views(events@)),
        fetch_succeeds(config@, content) ==> ingests(
            all_events(ical_calendars(content->Ok_0@).unwrap()),
            now as int,
            event_views(events@),
        ) && final(db)@ == after_fetch(
            old(db)@,
            event_views(events@),
            config@.source_type,
            now as int,
        ),
        !fetch_succeeds(config@, content) ==> final(db)@ == old(db)@ && event_views(events@)
            == stale_events(config@, old(db)@.calendar_events, now as int),
{
    match fetch_calendar_events(db, config, content, now) {
        Ok(events) => {
            proof {
                if planned_source(config@) is NotConfigured {
                    assert(event_views(events@) =~= Seq::empty());
                }
            }
            events
        },
        Err(_) => get_cached_calendar_events(db, now),
    }
}

/// Fetching the same events for the same source at the same instant a
/// second time leaves the cache as the first fetch left it: nothing is
/// duplicated.
pub proof fn lemma_refetch_changes_nothing(
    before: DatabaseView,
    events: Seq<CalendarEventView>,
    source_type: Seq<char>,
    now: int,
)
    ensures
        after_fetch(after_fetch(before, events, source_type, now), events, source_type, now)
            == after_fetch(before, events, source_type, now),
{
    lemma_save_is_idempotent(before.calendar_events, events, source_type);
    let other = |r: MetadataRowView| r.source != "calendar"@;
    let row = MetadataRowView { source: "calendar"@, last_fetch: now, etag: None };
    let kept = before.cache_metadata.filter(other);
    let once = kept.push(row);
    assert(once.filter(other) == kept) by {
        reveal(Seq::filter);
        assert(once.drop_last() =~= kept);
        lemma_filter_passes(before.cache_metadata, other);
        lemma_filter_all(kept, other);
    }
}

/// After a fetch has brought `events` in for the configured source, a
/// refresh whose fetch fails returns those events again: the ones that
/// belong to the day of `now`, flagged at `now`, in agenda order. This
/// holds whatever the source's partition held before the fetch, as long as
/// the cache holds nothing of other sources. Events that were in agenda
/// order, flagged at `now` and all of today come back exactly as they were
/// fetched.
pub proof fn lemma_fallback_returns_fetched_events(
    before: DatabaseView,
    events: Seq<CalendarEventView>,
    config: CalendarConfigView,
    fetched_at: int,
    now: int,
)
    requires
        planned_source(config) is Url || planned_source(config) is File,
        ids_differ(events),
        forall|i: int|
            0 <= i < before.calendar_events.len() ==> (#[trigger] before.calendar_events[i]).source
                == config.source_type,
    ensures
        stale_events(
            config,
            after_fetch(before, events, config.source_type, fetched_at).calendar_events,
            now,
        ) == agenda_order(flagged(of_today(events, now), now)),
        is_ordered(events) && (forall|i: int|
            0 <= i < events.len() ==> (#[trigger] events[i]).flags_hold_at(now) && overlaps_today(
                now,
                events[i].start_time,
                events[i].end_time,
            )) ==> stale_events(
            config,
            after_fetch(before, events, config.source_type, fetched_at).calendar_events,
            now,
        ) == events,
{
    lemma_saved_events_are_read_back(before.calendar_events, events, config.source_type, now);
    if is_ordered(events) && (forall|i: int|
        0 <= i < events.len() ==> (#[trigger] events[i]).flags_hold_at(now) && overlaps_today(
            now,
            events[i].start_time,
            events[i].end_time,
        )) {
        lemma_filter_all(
            events,
            |e: CalendarEventView|
                overlaps_today(now, e.start_time, e.end_time),
        );
        assert(flagged(events, now) =~= events) by {
            assert forall|i: int| 0 <= i < events.len() implies flagged(events, now)[i]
                == events[i] by {
                assert(events[i].flags_hold_at(now));
            }
        }
        lemma_ordered_is_fixed(events);
    }
}

/// With nothing in the cache, a refresh whose fetch fails returns no event.
pub proof fn lemma_fallback_on_empty_cache(config: CalendarConfigView, now: int)
    ensures
        stale_events(config, Seq::empty(), now) == Seq::<
            CalendarEventView,
        >::empty(),
{
    lemma_empty_cache_shows_nothing(now);
}

/// A day with a holiday and a meeting, end to end.
///
/// A document holds two VEVENTs, in either order: an all-day holiday dated
/// on the UTC day of `begun`, without an end, and a meeting from `begun` to
/// half an hour later, given in UTC. The document is ingested at `begun`,
/// saved into an empty cache, and the cache is read at `now`, while the
/// meeting runs and the day has not changed. The read then gives exactly
/// the two events, the holiday first. The meeting is live and not soon, on
/// every machine. The holiday spans the first hour of its day, so it is
/// live during that hour and neither live nor soon after it.
pub proof fn lemma_holiday_and_meeting_are_read_back(
    raw: Seq<Seq<IcsPropertyView>>,
    holiday: Seq<IcsPropertyView>,
    meeting: Seq<IcsPropertyView>,
    day: CivilDate,
    begun: int,
    now: int,
    source: Seq<char>,
)
    requires
        raw == seq![holiday, meeting] || raw == seq![meeting, holiday],
        event_fields(holiday).uid is Some,
        event_fields(holiday).start matches Some(start) && start.date_only && parsed_date(
            start.value,
            "%Y%m%d"@,
        ) == Some(day),
        day.is_valid(),
        day.midnight_utc() == today_start(begun),
        event_fields(holiday).end is None,
        event_fields(meeting).uid is Some,
        event_fields(meeting).uid != event_fields(holiday).uid,
        event_fields(meeting).start matches Some(start) && !start.date_only && time_reading(
            start.value,
            false,
        ) == Reading::Fixed(begun),
        field_reading(event_fields(meeting).end) == Reading::Fixed(begun + 1800),
        representable(begun + 1800),
        begun <= now < begun + 1800,
        day_number(now) == day_number(begun),
    ensures
        ({
            let shown = todays_events(
                replace_partition(Seq::empty(), normalized_events(raw, begun), source),
                now,
            );
            &&& shown.len() == 2
            &&& Some(shown[0].id) == event_fields(holiday).uid
            &&& shown[0].summary == title_of(event_fields(holiday).summary)
            &&& shown[0].all_day
            &&& shown[0].start_time == day.midnight_utc()
            &&& shown[0].end_time == day.midnight_utc() + 3600
            &&& shown[0].is_now == (now < day.midnight_utc() + 3600)
            &&& !shown[0].is_soon
            &&& Some(shown[1].id) == event_fields(meeting).uid
            &&& shown[1].summary == title_of(event_fields(meeting).summary)
            &&& !shown[1].all_day
            &&& shown[1].start_time == begun
            &&& shown[1].end_time == begun + 1800
            &&& shown[1].is_now
            &&& !shown[1].is_soon
        }),
{
    let today = day_number(begun);
    let bindings = fixed_bindings(raw);
    lemma_valid_date_in_range(day);
    let first = assemble(
        event_fields(holiday),
        Some(day.midnight_utc()),
        None,
        today,
        today + 1,
        begun,
    );
    let second = assemble(
        event_fields(meeting),
        Some(begun),
        Some(begun + 1800),
        today,
        today + 1,
        begun,
    );
    assert(first is Some);
    assert(second is Some);
    let whole = first->Some_0;
    let half = second->Some_0;
    // What ingestion keeps, in document order.
    let kept = kept_events(raw, bindings, today, today + 1, begun);
    assert(kept == (if raw == seq![holiday, meeting] {
        seq![whole, half]
    } else {
        seq![half, whole]
    })) by {
        reveal_with_fuel(kept_events, 3);
        assert(raw.drop_last().drop_last() =~= Seq::<Seq<IcsPropertyView>>::empty());
        assert(bindings.drop_last().drop_last() =~= Seq::<Binding>::empty());
        assert(raw.drop_last().last() == raw[0]);
        assert(bindings.drop_last().last() == bindings[0]);
        assert(raw.last() == raw[1]);
        assert(bindings.last() == bindings[1]);
        assert(kept =~= (if raw == seq![holiday, meeting] {
            seq![whole, half]
        } else {
            seq![half, whole]
        }));
    }
    assert(ids_differ(kept));
    lemma_latest_of_distinct(kept);
    lemma_all_day_sorts_first(whole, half);
    let ingested = normalized_events(raw, begun);
    assert(ingested == seq![whole, half]);
    // What the cache shows afterwards.
    lemma_saved_events_are_read_back(Seq::empty(), ingested, source, now);
    lemma_filter_all(
        ingested,
        |e: CalendarEventView| overlaps_today(now, e.start_time, e.end_time),
    );
    assert(flagged(ingested, now) =~= seq![whole.flagged_at(now), half.flagged_at(now)]);
    lemma_all_day_sorts_first(whole.flagged_at(now), half.flagged_at(now));
}

} // verus!
