//! What normalization guarantees about the events it makes.

use crate::agenda::{
    agenda_order, is_ordered, lemma_agenda_order_is_ordered, lemma_agenda_order_keeps_property,
};
use crate::identity::{
    ids_differ, latest_by_id, lemma_agenda_order_keeps_ids_apart, lemma_latest_ids_differ,
    lemma_latest_keeps_property,
};
use crate::civil::CivilDate;
use crate::ics::IcsPropertyView;
use crate::models::calendar::CalendarEventView;
use crate::services::calendar_service::{
    admits, all_zoned, arranged_events, assemble, bindings_resolve, event_fields, ingests,
    kept_events, lemma_zoned_document_is_determined, normalized_event, representable, resolves,
    time_reading, Binding, EventFieldsView, Reading,
};
use crate::time_window::{day_number, is_now, is_soon, overlaps_today, today_end, today_start};
use crate::timekeeping::parsed_date;
use vstd::prelude::*;

verus! {

/// A date-only value that the date library reads as the date `date`
/// denotes midnight UTC of that date, whatever the machine and the time of
/// ingestion: the first second of the UTC day with the date's day number.
pub proof fn lemma_date_only_is_midnight_utc(value: Seq<char>, date: CivilDate)
    requires
        parsed_date(value, "%Y%m%d"@) == Some(date),
        date.is_valid(),
    ensures
        time_reading(value, true) == Reading::Fixed(date.midnight_utc()),
        admits(time_reading(value, true), Some(date.midnight_utc())),
        day_number(date.midnight_utc()) == date.day_number(),
        date.midnight_utc() == today_start(date.midnight_utc()),
{
}

/// A date-only event whose end is the date after its start spans exactly
/// the UTC day of its start date, at every instant of ingestion at which it
/// is kept: it begins at midnight of the date and ends 86400 seconds later.
pub proof fn lemma_date_only_event_spans_its_day(
    properties: Seq<IcsPropertyView>,
    day: CivilDate,
    next: CivilDate,
    today: int,
    tomorrow: int,
    now: int,
)
    requires
        event_fields(properties).start matches Some(start) && start.date_only && parsed_date(
            start.value,
            "%Y%m%d"@,
        ) == Some(day),
        event_fields(properties).end matches Some(end) && end.date_only && parsed_date(
            end.value,
            "%Y%m%d"@,
        ) == Some(next),
        day.is_valid(),
        next.is_valid(),
        next.day_number() == day.day_number() + 1,
        normalized_event(properties, today, tomorrow, now) is Some,
    ensures
        normalized_event(properties, today, tomorrow, now)->Some_0.start_time == day.midnight_utc(),
        normalized_event(properties, today, tomorrow, now)->Some_0.end_time == day.midnight_utc()
            + 86400,
        normalized_event(properties, today, tomorrow, now)->Some_0.all_day,
{
}

/// An event that is given no end instant ends one hour after it starts.
pub proof fn lemma_missing_end_is_one_hour(
    fields: EventFieldsView,
    start: Option<int>,
    today: int,
    tomorrow: int,
    now: int,
)
    requires
        assemble(fields, start, None, today, tomorrow, now) is Some,
    ensures
        assemble(fields, start, None, today, tomorrow, now)->Some_0.end_time == assemble(
            fields,
            start,
            None,
            today,
            tomorrow,
            now,
        )->Some_0.start_time + 3600,
{
}

/// A VEVENT without a DTEND that carries a value ends one hour after it
/// starts, whatever instants its time values are bound to.
pub proof fn lemma_absent_dtend_is_one_hour(
    properties: Seq<IcsPropertyView>,
    start: Option<int>,
    end: Option<int>,
    today: int,
    tomorrow: int,
    now: int,
)
    requires
        event_fields(properties).end is None,
        resolves(properties, start, end),
        assemble(event_fields(properties), start, end, today, tomorrow, now) is Some,
    ensures
        assemble(event_fields(properties), start, end, today, tomorrow, now)->Some_0.end_time
            == assemble(
            event_fields(properties),
            start,
            end,
            today,
            tomorrow,
            now,
        )->Some_0.start_time + 3600,
{
}

/// Every event that normalization makes carries the flags that hold at the
/// instant of ingestion, ends on or after `today`, starts on or before
/// `tomorrow`, carries the UID of its VEVENT, and ends after it starts.
pub proof fn lemma_assembled_event_is_current(
    fields: EventFieldsView,
    start: Option<int>,
    end: Option<int>,
    today: int,
    tomorrow: int,
    now: int,
)
    requires
        assemble(fields, start, end, today, tomorrow, now) is Some,
    ensures
        assemble(fields, start, end, today, tomorrow, now)->Some_0.flags_hold_at(now),
        day_number(assemble(fields, start, end, today, tomorrow, now)->Some_0.start_time)
            <= tomorrow,
        day_number(assemble(fields, start, end, today, tomorrow, now)->Some_0.end_time) >= today,
        fields.uid == Some(assemble(fields, start, end, today, tomorrow, now)->Some_0.id),
        assemble(fields, start, end, today, tomorrow, now)->Some_0.end_time > assemble(
            fields,
            start,
            end,
            today,
            tomorrow,
            now,
        )->Some_0.start_time,
{
}

/// An all-day event stands before a timed event, whichever starts first
/// and in whichever order the two came in.
pub proof fn lemma_all_day_sorts_first(all_day: CalendarEventView, timed: CalendarEventView)
    requires
        all_day.all_day,
        !timed.all_day,
    ensures
        agenda_order(seq![timed, all_day]) == seq![all_day, timed],
        agenda_order(seq![all_day, timed]) == seq![all_day, timed],
{
    reveal_with_fuel(agenda_order, 3);
    reveal_with_fuel(crate::agenda::insert_ordered, 3);
    let a = seq![timed, all_day];
    assert(a.drop_last() =~= seq![timed]);
    assert(seq![timed].drop_last() =~= Seq::<CalendarEventView>::empty());
    assert(agenda_order(seq![timed]) =~= seq![timed]);
    assert(agenda_order(a) =~= seq![all_day, timed]);
    let b = seq![all_day, timed];
    assert(b.drop_last() =~= seq![all_day]);
    assert(seq![all_day].drop_last() =~= Seq::<CalendarEventView>::empty());
    assert(agenda_order(seq![all_day]) =~= seq![all_day]);
    assert(agenda_order(b) =~= seq![all_day, timed]);
}

/// An event is never both live and soon; an event around `now` is live,
/// an event that starts within the next half hour is soon, and an event
/// that starts later is neither.
pub proof fn lemma_liveness_flags(now: int, start: int, end: int)
    ensures
        !(is_now(now, start, end) && is_soon(now, start, end)),
        start <= now < end ==> is_now(now, start, end) && !is_soon(now, start, end),
        now < start <= now + 1800 ==> !is_now(now, start, end) && is_soon(now, start, end),
        start > now + 1800 ==> !is_now(now, start, end) && !is_soon(now, start, end),
        is_now(now, now - 10, now + 10) && !is_soon(now, now - 10, now + 10),
        !is_now(now, now + 100, now + 200) && is_soon(now, now + 100, now + 200),
        !is_now(now, now + 5000, now + 6000) && !is_soon(now, now + 5000, now + 6000),
{
}

/// The today window is the UTC day of `now`: it holds `now`, begins on a
/// day boundary and is 86400 seconds wide. An event that is live at `now`
/// and began today or earlier belongs to today.
pub proof fn lemma_today_window(now: int, start: int, end: int)
    ensures
        today_start(now) <= now <= today_end(now),
        today_start(now) % 86400 == 0,
        today_end(now) - today_start(now) == 86399,
        is_now(now, start, end) ==> overlaps_today(now, start, end),
{
}

/// What ingestion promises of every event that it returns: its title is
/// not empty, it ends after it starts, its flags are those that hold at the
/// instant of ingestion, both its instants are representable, it ends on or
/// after the UTC day of that instant and starts on or before the day after,
/// and it is not linked to a page.
pub open spec fn is_current(event: CalendarEventView, now: int) -> bool {
    &&& event.summary.len() > 0
    &&& event.end_time > event.start_time
    &&& event.flags_hold_at(now)
    &&& representable(event.start_time)
    &&& representable(event.end_time)
    &&& day_number(event.start_time) <= day_number(now) + 1
    &&& day_number(event.end_time) >= day_number(now)
    &&& event.html_link is None
}

/// Every event that is kept is current, whatever the bindings.
pub proof fn lemma_kept_events_are_current(
    raw: Seq<Seq<IcsPropertyView>>,
    bindings: Seq<Binding>,
    now: int,
)
    ensures
        forall|i: int|
            0 <= i < kept_events(raw, bindings, day_number(now), day_number(now) + 1, now).len()
                ==> is_current(
                #[trigger] kept_events(raw, bindings, day_number(now), day_number(now) + 1, now)[i],
                now,
            ),
    decreases raw.len(),
{
    if raw.len() > 0 {
        let today = day_number(now);
        reveal_strlit("(No title)");
        lemma_kept_events_are_current(raw.drop_last(), bindings.drop_last(), now);
        let front = kept_events(raw.drop_last(), bindings.drop_last(), today, today + 1, now);
        let kept = kept_events(raw, bindings, today, today + 1, now);
        assert forall|i: int| 0 <= i < kept.len() implies is_current(#[trigger] kept[i], now) by {
            if i < front.len() {
                assert(kept[i] == front[i]);
            }
        }
    }
}

/// Every event that ingestion returns is current, on every machine.
pub proof fn lemma_ingested_events_are_current(
    raw: Seq<Seq<IcsPropertyView>>,
    now: int,
    events: Seq<CalendarEventView>,
)
    requires
        ingests(raw, now, events),
    ensures
        forall|i: int| 0 <= i < events.len() ==> is_current(#[trigger] events[i], now),
{
    let bindings = choose|bindings: Seq<Binding>| #[trigger]
        bindings_resolve(raw, bindings) && events == arranged_events(raw, bindings, now);
    let kept = kept_events(raw, bindings, day_number(now), day_number(now) + 1, now);
    let current = |event: CalendarEventView| is_current(event, now);
    lemma_kept_events_are_current(raw, bindings, now);
    lemma_latest_keeps_property(kept, current);
    lemma_agenda_order_keeps_property(latest_by_id(kept), current);
}

/// No two events that ingestion returns share an id, and the result is in
/// agenda order.
pub proof fn lemma_ingested_events_are_distinct(
    raw: Seq<Seq<IcsPropertyView>>,
    now: int,
    events: Seq<CalendarEventView>,
)
    requires
        ingests(raw, now, events),
    ensures
        ids_differ(events),
        is_ordered(events),
{
    let bindings = choose|bindings: Seq<Binding>| #[trigger]
        bindings_resolve(raw, bindings) && events == arranged_events(raw, bindings, now);
    let kept = kept_events(raw, bindings, day_number(now), day_number(now) + 1, now);
    lemma_latest_ids_differ(kept);
    lemma_agenda_order_keeps_ids_apart(latest_by_id(kept));
    lemma_agenda_order_is_ordered(latest_by_id(kept));
}

/// Ingesting the same document twice at the same instant gives the same
/// events, as long as none of its time values is floating.
pub proof fn lemma_reingestion_gives_the_same_events(
    raw: Seq<Seq<IcsPropertyView>>,
    now: int,
    first: Seq<CalendarEventView>,
    second: Seq<CalendarEventView>,
)
    requires
        all_zoned(raw),
        ingests(raw, now, first),
        ingests(raw, now, second),
    ensures
        first == second,
        ids_differ(first),
{
    lemma_zoned_document_is_determined(raw, now, first);
    lemma_zoned_document_is_determined(raw, now, second);
    lemma_ingested_events_are_distinct(raw, now, first);
}

} // verus!
