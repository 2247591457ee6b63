//! What replacing a partition does to the calendar table.
//!
//! Rows are identified by their event id across the whole table, and the
//! source only names the partition that a row belongs to. Saving a source
//! therefore removes the old rows of that source and every row, of whatever
//! source, whose id is saved anew.

use crate::agenda::agenda_order;
use crate::database::repository::{
    events_at, partition, replace_partition, todays_events, todays_rows, upsert_events,
    without_source,
};
use crate::database::schema::CalendarRowView;
use crate::filters::{
    lemma_filter_agrees, lemma_filter_all, lemma_filter_keeps_apart, lemma_filter_keeps_property,
    lemma_filter_none, lemma_filter_passes, lemma_filter_twice,
};
use crate::identity::{has_id, ids_differ};
use crate::models::calendar::CalendarEventView;
use crate::time_window::overlaps_today;
use vstd::prelude::*;

verus! {

/// The rows whose id is not saved anew.
pub open spec fn untouched(rows: Seq<CalendarRowView>, events: Seq<CalendarEventView>) -> Seq<
    CalendarRowView,
> {
    rows.filter(|r: CalendarRowView| !has_id(events, r.id))
}

/// The rows that the events make in an empty table: one row per id, the
/// last event of an id standing for it.
pub open spec fn fresh_rows(events: Seq<CalendarEventView>, source: Seq<char>) -> Seq<
    CalendarRowView,
> {
    upsert_events(Seq::empty(), events, source)
}

/// No two rows share an id.
pub open spec fn row_ids_differ(rows: Seq<CalendarRowView>) -> bool {
    forall|i: int, j: int| 0 <= i < j < rows.len() ==> rows[i].id != rows[j].id
}

/// The rows that store the events, one for one.
pub open spec fn rows_of(events: Seq<CalendarEventView>, source: Seq<char>) -> Seq<CalendarRowView> {
    Seq::new(events.len(), |i: int| CalendarRowView::of_event(events[i], source))
}

/// Writing events into a table leaves the rows whose id is not written,
/// followed by the rows that the events make on their own.
pub proof fn lemma_upsert_events_splits(
    rows: Seq<CalendarRowView>,
    events: Seq<CalendarEventView>,
    source: Seq<char>,
)
    ensures
        upsert_events(rows, events, source) == untouched(rows, events) + fresh_rows(events, source),
    decreases events.len(),
{
    if events.len() == 0 {
        lemma_filter_all(rows, |r: CalendarRowView| !has_id(events, r.id));
        assert(rows + Seq::<CalendarRowView>::empty() =~= rows);
    } else {
        let front = events.drop_last();
        let last = events.last();
        let row = CalendarRowView::of_event(last, source);
        lemma_upsert_events_splits(rows, front, source);
        let differs = |r: CalendarRowView| r.id != row.id;
        let unseen = |r: CalendarRowView| !has_id(front, r.id);
        Seq::filter_distributes_over_add(
            untouched(rows, front),
            fresh_rows(front, source),
            differs,
        );
        lemma_filter_twice(rows, unseen, differs);
        assert forall|i: int| 0 <= i < rows.len() implies (unseen(#[trigger] rows[i]) && differs(
            rows[i],
        )) == !has_id(events, rows[i].id) by {
            let id = rows[i].id;
            if has_id(events, id) {
                let k = choose|k: int| 0 <= k < events.len() && #[trigger] events[k].id == id;
                if k < front.len() {
                    assert(front[k].id == id);
                }
            }
            if has_id(front, id) {
                let k = choose|k: int| 0 <= k < front.len() && #[trigger] front[k].id == id;
                assert(events[k].id == id);
            }
            if id == row.id {
                assert(events[events.len() - 1].id == id);
            }
        }
        lemma_filter_agrees(
            rows,
            |r: CalendarRowView| unseen(r) && differs(r),
            |r: CalendarRowView| !has_id(events, r.id),
        );
        assert(upsert_events(rows, events, source) =~= untouched(rows, events) + fresh_rows(
            events,
            source,
        ));
    }
}

/// Every row that the events make belongs to the source they are saved
/// for, and carries the id of one of them.
pub proof fn lemma_fresh_rows_belong(events: Seq<CalendarEventView>, source: Seq<char>)
    ensures
        forall|i: int|
            0 <= i < fresh_rows(events, source).len() ==> (#[trigger] fresh_rows(
                events,
                source,
            )[i]).source == source,
        forall|i: int|
            0 <= i < fresh_rows(events, source).len() ==> has_id(
                events,
                (#[trigger] fresh_rows(events, source)[i]).id,
            ),
    decreases events.len(),
{
    if events.len() > 0 {
        let front = events.drop_last();
        let row = CalendarRowView::of_event(events.last(), source);
        lemma_fresh_rows_belong(front, source);
        let differs = |r: CalendarRowView| r.id != row.id;
        let belongs = |r: CalendarRowView| r.source == source && has_id(events, r.id);
        assert forall|i: int| 0 <= i < fresh_rows(front, source).len() implies belongs(
            #[trigger] fresh_rows(front, source)[i],
        ) by {
            let id = fresh_rows(front, source)[i].id;
            let k = choose|k: int| 0 <= k < front.len() && #[trigger] front[k].id == id;
            assert(events[k].id == id);
        }
        lemma_filter_keeps_property(fresh_rows(front, source), differs, belongs);
        assert(events[events.len() - 1].id == row.id);
        let result = fresh_rows(events, source);
        assert(result == fresh_rows(front, source).filter(differs).push(row));
        assert forall|i: int| 0 <= i < result.len() implies belongs(#[trigger] result[i]) by {
            if i < result.len() - 1 {
                assert(result[i] == fresh_rows(front, source).filter(differs)[i]);
            }
        }
    }
}

/// Events with pairwise different ids make one row each, in their order.
pub proof fn lemma_fresh_rows_of_distinct(events: Seq<CalendarEventView>, source: Seq<char>)
    requires
        ids_differ(events),
    ensures
        fresh_rows(events, source) == rows_of(events, source),
    decreases events.len(),
{
    if events.len() == 0 {
        assert(rows_of(events, source) =~= Seq::<CalendarRowView>::empty());
    } else {
        let front = events.drop_last();
        let row = CalendarRowView::of_event(events.last(), source);
        assert(ids_differ(front)) by {
            assert forall|i: int, j: int| 0 <= i < j < front.len() implies front[i].id
                != front[j].id by {
                assert(events[i].id != events[j].id);
            }
        }
        lemma_fresh_rows_of_distinct(front, source);
        let differs = |r: CalendarRowView| r.id != row.id;
        assert forall|i: int| 0 <= i < rows_of(front, source).len() implies differs(
            #[trigger] rows_of(front, source)[i],
        ) by {
            assert(events[i].id != events[events.len() - 1].id);
        }
        lemma_filter_all(rows_of(front, source), differs);
        assert(rows_of(front, source).push(row) =~= rows_of(events, source));
    }
}

/// After a source is saved, its partition holds exactly the rows that the
/// saved events make, whatever the table held before.
pub proof fn lemma_partition_after_save(
    rows: Seq<CalendarRowView>,
    events: Seq<CalendarEventView>,
    source: Seq<char>,
)
    ensures
        partition(replace_partition(rows, events, source), source) == fresh_rows(events, source),
{
    let cleared = without_source(rows, source);
    let mine = |r: CalendarRowView| r.source == source;
    let not_mine = |r: CalendarRowView| r.source != source;
    lemma_upsert_events_splits(cleared, events, source);
    Seq::filter_distributes_over_add(
        untouched(cleared, events),
        fresh_rows(events, source),
        mine,
    );
    lemma_filter_passes(rows, not_mine);
    lemma_filter_keeps_property(cleared, |r: CalendarRowView| !has_id(events, r.id), not_mine);
    lemma_filter_none(untouched(cleared, events), mine);
    lemma_fresh_rows_belong(events, source);
    lemma_filter_all(fresh_rows(events, source), mine);
    assert(Seq::<CalendarRowView>::empty() + fresh_rows(events, source) =~= fresh_rows(
        events,
        source,
    ));
}

/// Saving a source leaves, in every other partition, the rows whose id is
/// not saved anew.
pub proof fn lemma_other_partition_after_save(
    rows: Seq<CalendarRowView>,
    events: Seq<CalendarEventView>,
    source: Seq<char>,
    other: Seq<char>,
)
    requires
        other != source,
    ensures
        partition(replace_partition(rows, events, source), other) == untouched(
            partition(rows, other),
            events,
        ),
{
    let cleared = without_source(rows, source);
    let theirs = |r: CalendarRowView| r.source == other;
    let not_mine = |r: CalendarRowView| r.source != source;
    let unseen = |r: CalendarRowView| !has_id(events, r.id);
    lemma_upsert_events_splits(cleared, events, source);
    Seq::filter_distributes_over_add(
        untouched(cleared, events),
        fresh_rows(events, source),
        theirs,
    );
    lemma_fresh_rows_belong(events, source);
    lemma_filter_none(fresh_rows(events, source), theirs);
    // rows.filter(not_mine).filter(unseen).filter(theirs) == rows.filter(theirs).filter(unseen)
    lemma_filter_twice(rows, not_mine, unseen);
    let first = |r: CalendarRowView| not_mine(r) && unseen(r);
    assert(untouched(cleared, events) == rows.filter(first));
    lemma_filter_twice(rows, first, theirs);
    lemma_filter_twice(rows, theirs, unseen);
    lemma_filter_agrees(
        rows,
        |r: CalendarRowView| first(r) && theirs(r),
        |r: CalendarRowView| theirs(r) && unseen(r),
    );
    assert(untouched(cleared, events).filter(theirs) + Seq::<CalendarRowView>::empty()
        =~= untouched(cleared, events).filter(theirs));
}

/// Saving the same events for the same source a second time changes
/// nothing.
pub proof fn lemma_save_is_idempotent(
    rows: Seq<CalendarRowView>,
    events: Seq<CalendarEventView>,
    source: Seq<char>,
)
    ensures
        replace_partition(replace_partition(rows, events, source), events, source)
            == replace_partition(rows, events, source),
{
    let cleared = without_source(rows, source);
    let once = replace_partition(rows, events, source);
    let not_mine = |r: CalendarRowView| r.source != source;
    let unseen = |r: CalendarRowView| !has_id(events, r.id);
    lemma_upsert_events_splits(cleared, events, source);
    // Clearing the source out of `once` leaves the untouched rows.
    Seq::filter_distributes_over_add(
        untouched(cleared, events),
        fresh_rows(events, source),
        not_mine,
    );
    lemma_filter_passes(rows, not_mine);
    lemma_filter_keeps_property(cleared, unseen, not_mine);
    lemma_filter_all(untouched(cleared, events), not_mine);
    lemma_fresh_rows_belong(events, source);
    lemma_filter_none(fresh_rows(events, source), not_mine);
    assert(untouched(cleared, events) + Seq::<CalendarRowView>::empty() =~= untouched(
        cleared,
        events,
    ));
    assert(without_source(once, source) == untouched(cleared, events));
    // Writing the events again leaves those rows untouched a second time.
    lemma_upsert_events_splits(untouched(cleared, events), events, source);
    lemma_filter_passes(cleared, unseen);
    lemma_filter_all(untouched(cleared, events), unseen);
}

/// Saving a second set of events for a source leaves only the second set in
/// the source's partition, and leaves every other partition as it was as
/// long as none of its rows carries an id of the second set.
pub proof fn lemma_save_replaces(
    rows: Seq<CalendarRowView>,
    first: Seq<CalendarEventView>,
    second: Seq<CalendarEventView>,
    source: Seq<char>,
    other: Seq<char>,
)
    requires
        other != source,
        forall|i: int|
            0 <= i < partition(rows, other).len() ==> !has_id(
                second,
                (#[trigger] partition(rows, other)[i]).id,
            ),
    ensures
        partition(
            replace_partition(replace_partition(rows, first, source), second, source),
            source,
        ) == fresh_rows(second, source),
        ids_differ(second) ==> partition(
            replace_partition(replace_partition(rows, first, source), second, source),
            source,
        ) == rows_of(second, source),
        partition(replace_partition(rows, second, source), other) == partition(rows, other),
{
    lemma_partition_after_save(replace_partition(rows, first, source), second, source);
    if ids_differ(second) {
        lemma_fresh_rows_of_distinct(second, source);
    }
    lemma_other_partition_after_save(rows, second, source, other);
    lemma_filter_all(partition(rows, other), |r: CalendarRowView| !has_id(second, r.id));
}

/// Keeping some rows of a table in which no two rows share an id leaves a
/// table in which no two rows share an id.
pub proof fn lemma_filter_keeps_ids_apart(rows: Seq<CalendarRowView>, p: spec_fn(CalendarRowView) -> bool)
    requires
        row_ids_differ(rows),
    ensures
        row_ids_differ(rows.filter(p)),
{
    lemma_filter_keeps_apart(rows, p, |a: CalendarRowView, b: CalendarRowView| a.id == b.id);
}

/// The id stays the key of the calendar table: when no two rows share an
/// id before a source is saved, no two rows share an id afterwards, in the
/// source's partition as in the whole table.
pub proof fn lemma_save_keeps_ids_apart(
    rows: Seq<CalendarRowView>,
    events: Seq<CalendarEventView>,
    source: Seq<char>,
)
    requires
        row_ids_differ(rows),
    ensures
        row_ids_differ(replace_partition(rows, events, source)),
        row_ids_differ(partition(replace_partition(rows, events, source), source)),
{
    lemma_filter_keeps_ids_apart(rows, |r: CalendarRowView| r.source != source);
    lemma_upsert_keeps_ids_apart(without_source(rows, source), events, source);
    lemma_filter_keeps_ids_apart(
        replace_partition(rows, events, source),
        |r: CalendarRowView| r.source == source,
    );
}

/// Writing events into a table in which no two rows share an id leaves a
/// table in which no two rows share an id.
pub proof fn lemma_upsert_keeps_ids_apart(
    rows: Seq<CalendarRowView>,
    events: Seq<CalendarEventView>,
    source: Seq<char>,
)
    requires
        row_ids_differ(rows),
    ensures
        row_ids_differ(upsert_events(rows, events, source)),
    decreases events.len(),
{
    if events.len() > 0 {
        let before = upsert_events(rows, events.drop_last(), source);
        let row = CalendarRowView::of_event(events.last(), source);
        let differs = |r: CalendarRowView| r.id != row.id;
        lemma_upsert_keeps_ids_apart(rows, events.drop_last(), source);
        lemma_filter_keeps_ids_apart(before, differs);
        lemma_filter_passes(before, differs);
        let kept = before.filter(differs);
        let after = kept.push(row);
        assert forall|i: int, j: int| 0 <= i < j < after.len() implies after[i].id
            != after[j].id by {
            if j < kept.len() {
                assert(kept[i].id != kept[j].id);
            } else {
                assert(differs(kept[i]));
            }
        }
    }
}

/// An empty table shows nothing, whatever the instant.
pub proof fn lemma_empty_cache_shows_nothing(now: int)
    ensures
        todays_events(Seq::empty(), now) == Seq::<CalendarEventView>::empty(),
{
    reveal(Seq::filter);
    assert(todays_rows(Seq::empty(), now) =~= Seq::<CalendarRowView>::empty());
    assert(events_at(Seq::<CalendarRowView>::empty(), now) =~= Seq::<CalendarEventView>::empty());
}

/// The events of a list that belong to the day of `now`.
pub open spec fn of_today(events: Seq<CalendarEventView>, now: int) -> Seq<CalendarEventView> {
    events.filter(|e: CalendarEventView| overlaps_today(now, e.start_time, e.end_time))
}

/// The events of a list, each flagged at `now`.
pub open spec fn flagged(events: Seq<CalendarEventView>, now: int) -> Seq<CalendarEventView> {
    Seq::new(events.len(), |i: int| events[i].flagged_at(now))
}

/// The rows of today among the rows that store a list of events are the
/// rows that store the events of today, flagged at any instant.
proof fn lemma_todays_rows_of(events: Seq<CalendarEventView>, source: Seq<char>, now: int)
    ensures
        events_at(todays_rows(rows_of(events, source), now), now) == flagged(
            of_today(events, now),
            now,
        ),
    decreases events.len(),
{
    reveal(Seq::filter);
    if events.len() == 0 {
        assert(rows_of(events, source) =~= Seq::<CalendarRowView>::empty());
        assert(events_at(todays_rows(rows_of(events, source), now), now) =~= flagged(
            of_today(events, now),
            now,
        ));
    } else {
        let front = events.drop_last();
        let last = events.last();
        let row = CalendarRowView::of_event(last, source);
        lemma_todays_rows_of(front, source, now);
        assert(rows_of(events, source).drop_last() =~= rows_of(front, source));
        assert(rows_of(events, source).last() == row);
        assert(row.event_at(now) == last.flagged_at(now));
        let front_rows = todays_rows(rows_of(front, source), now);
        let front_events = of_today(front, now);
        if overlaps_today(now, last.start_time, last.end_time) {
            assert(todays_rows(rows_of(events, source), now) == front_rows.push(row));
            assert(of_today(events, now) == front_events.push(last));
            assert(events_at(front_rows.push(row), now) =~= events_at(front_rows, now).push(
                row.event_at(now),
            ));
            assert(flagged(front_events.push(last), now) =~= flagged(front_events, now).push(
                last.flagged_at(now),
            ));
        } else {
            assert(todays_rows(rows_of(events, source), now) == front_rows);
            assert(of_today(events, now) == front_events);
        }
    }
}

/// What a source's partition shows after a save: when the table held
/// nothing of other sources, a read at `now` gives exactly the saved events
/// that belong to the day of `now`, flagged at `now`, in agenda order,
/// whatever the source's partition held before.
pub proof fn lemma_saved_events_are_read_back(
    rows: Seq<CalendarRowView>,
    events: Seq<CalendarEventView>,
    source: Seq<char>,
    now: int,
)
    requires
        ids_differ(events),
        forall|i: int| 0 <= i < rows.len() ==> (#[trigger] rows[i]).source == source,
    ensures
        todays_events(replace_partition(rows, events, source), now) == agenda_order(
            flagged(of_today(events, now), now),
        ),
{
    lemma_filter_none(rows, |r: CalendarRowView| r.source != source);
    lemma_fresh_rows_of_distinct(events, source);
    lemma_todays_rows_of(events, source, now);
}

} // verus!
