//! Events are told apart by their id: of several events with one id, the
//! last one stands for all of them.

use crate::agenda::{
    agenda_order, event_views, lemma_agenda_order_is_ordered, lemma_agenda_order_keeps_property,
    lemma_insert_ordered,
};
use crate::filters::{
    lemma_filter_all, lemma_filter_keeps_apart, lemma_filter_keeps_property, lemma_filter_passes,
};
use crate::models::calendar::{CalendarEvent, CalendarEventView};
use crate::text::same_text;
use vstd::prelude::*;
use vstd::string::*;

verus! {

/// Some event of the list has the given id.
pub open spec fn has_id(events: Seq<CalendarEventView>, id: Seq<char>) -> bool {
    exists|i: int| 0 <= i < events.len() && #[trigger] events[i].id == id
}

/// No two events share an id.
pub open spec fn ids_differ(events: Seq<CalendarEventView>) -> bool {
    forall|i: int, j: int| 0 <= i < j < events.len() ==> events[i].id != events[j].id
}

/// One event per id: the last event of each id, in the order of those last
/// events.
pub open spec fn latest_by_id(events: Seq<CalendarEventView>) -> Seq<CalendarEventView>
    decreases events.len(),
{
    if events.len() == 0 {
        events
    } else {
        latest_by_id(events.drop_last()).filter(
            |e: CalendarEventView| e.id != events.last().id,
        ).push(events.last())
    }
}

/// No two of the latest events share an id.
pub proof fn lemma_latest_ids_differ(events: Seq<CalendarEventView>)
    ensures
        ids_differ(latest_by_id(events)),
    decreases events.len(),
{
    if events.len() > 0 {
        let last = events.last();
        let other = |e: CalendarEventView| e.id != last.id;
        let before = latest_by_id(events.drop_last());
        lemma_latest_ids_differ(events.drop_last());
        lemma_filter_keeps_ids_apart(before, other);
        lemma_filter_passes(before, other);
        let kept = before.filter(other);
        let after = kept.push(last);
        assert forall|i: int, j: int| 0 <= i < j < after.len() implies after[i].id
            != after[j].id by {
            if j < kept.len() {
                assert(kept[i].id != kept[j].id);
            } else {
                assert(other(kept[i]));
            }
        }
    }
}

/// Keeping some events of a list in which no two share an id leaves a list
/// in which no two share an id.
pub proof fn lemma_filter_keeps_ids_apart(
    events: Seq<CalendarEventView>,
    p: spec_fn(CalendarEventView) -> bool,
)
    requires
        ids_differ(events),
    ensures
        ids_differ(events.filter(p)),
{
    lemma_filter_keeps_apart(
        events,
        p,
        |a: CalendarEventView, b: CalendarEventView| a.id == b.id,
    );
}

/// A list in which no two events share an id is its own list of latest
/// events.
pub proof fn lemma_latest_of_distinct(events: Seq<CalendarEventView>)
    requires
        ids_differ(events),
    ensures
        latest_by_id(events) == events,
    decreases events.len(),
{
    if events.len() > 0 {
        let front = events.drop_last();
        let last = events.last();
        assert(ids_differ(front)) by {
            assert forall|i: int, j: int| 0 <= i < j < front.len() implies front[i].id
                != front[j].id by {
                assert(events[i].id != events[j].id);
            }
        }
        lemma_latest_of_distinct(front);
        let other = |e: CalendarEventView| e.id != last.id;
        assert forall|i: int| 0 <= i < front.len() implies other(#[trigger] front[i]) by {
            assert(events[i].id != events[events.len() - 1].id);
        }
        lemma_filter_all(front, other);
        assert(front.push(last) =~= events);
    }
}

/// What holds of every event of a list holds of each of its latest events,
/// and each id of the list is the id of one of them.
pub proof fn lemma_latest_keeps_property(
    events: Seq<CalendarEventView>,
    property: spec_fn(CalendarEventView) -> bool,
)
    requires
        forall|i: int| 0 <= i < events.len() ==> property(#[trigger] events[i]),
    ensures
        forall|i: int|
            0 <= i < latest_by_id(events).len() ==> property(#[trigger] latest_by_id(events)[i]),
    decreases events.len(),
{
    if events.len() > 0 {
        let front = events.drop_last();
        let last = events.last();
        assert forall|i: int| 0 <= i < front.len() implies property(#[trigger] front[i]) by {
            assert(front[i] == events[i]);
        }
        lemma_latest_keeps_property(front, property);
        let other = |e: CalendarEventView| e.id != last.id;
        lemma_filter_keeps_property(latest_by_id(front), other, property);
        let kept = latest_by_id(front).filter(other);
        let after = latest_by_id(events);
        assert(property(events[events.len() - 1]));
        assert forall|i: int| 0 <= i < after.len() implies property(#[trigger] after[i]) by {
            if i < kept.len() {
                assert(after[i] == kept[i]);
            }
        }
    }
}

/// Arranging events in agenda order keeps their ids apart.
pub proof fn lemma_agenda_order_keeps_ids_apart(events: Seq<CalendarEventView>)
    requires
        ids_differ(events),
    ensures
        ids_differ(agenda_order(events)),
    decreases events.len(),
{
    if events.len() > 0 {
        let front = events.drop_last();
        let last = events.last();
        assert(ids_differ(front)) by {
            assert forall|i: int, j: int| 0 <= i < j < front.len() implies front[i].id
                != front[j].id by {
                assert(events[i].id != events[j].id);
            }
        }
        lemma_agenda_order_keeps_ids_apart(front);
        let other = |e: CalendarEventView| e.id != last.id;
        assert forall|i: int| 0 <= i < front.len() implies other(#[trigger] front[i]) by {
            assert(events[i].id != events[events.len() - 1].id);
        }
        lemma_agenda_order_keeps_property(front, other);
        lemma_agenda_order_is_ordered(front);
        let arranged = agenda_order(front);
        let cut = lemma_insert_ordered(arranged, last);
        let placed = agenda_order(events);
        assert forall|i: int, j: int| 0 <= i < j < placed.len() implies placed[i].id
            != placed[j].id by {
            let a = if i < cut { i } else { i - 1 };
            let b = if j < cut { j } else { j - 1 };
            if i == cut {
                assert(other(arranged[b]));
            } else if j == cut {
                assert(other(arranged[a]));
            } else {
                assert(arranged[a].id != arranged[b].id);
            }
        }
    }
}

/// The events of a list that do not carry the given id.
fn without_id(events: &Vec<CalendarEvent>, id: &str) -> (kept: Vec<CalendarEvent>)
    ensures
        event_views(kept@) == event_views(events@).filter(|e: CalendarEventView| e.id != id@),
{
    let mut kept: Vec<CalendarEvent> = Vec::new();
    let ghost all = event_views(events@);
    let mut i: usize = 0;
    proof {
        reveal(Seq::filter);
    }
    while i < events.len()
        invariant
            i <= events.len(),
            all == event_views(events@),
            event_views(kept@) == all.take(i as int).filter(|e: CalendarEventView| e.id != id@),
        decreases events.len() - i,
    {
        proof {
            reveal(Seq::filter);
            assert(all.take(i + 1).drop_last() =~= all.take(i as int));
            assert(all.take(i + 1).last() == events@[i as int]@);
        }
        let ghost before = event_views(kept@);
        if !same_text(events[i].id.as_str(), id) {
            kept.push(events[i].clone());
            proof {
                assert(event_views(kept@) =~= before.push(events@[i as int]@));
            }
        }
        i += 1;
    }
    proof {
        assert(all.take(events.len() as int) =~= all);
    }
    kept
}

/// Computes [`latest_by_id`].
pub fn keep_latest(events: &Vec<CalendarEvent>) -> (latest: Vec<CalendarEvent>)
    ensures
        event_views(latest@) == latest_by_id(event_views(events@)),
        ids_differ(event_views(latest@)),
{
    let mut latest: Vec<CalendarEvent> = Vec::new();
    let ghost all = event_views(events@);
    let mut i: usize = 0;
    while i < events.len()
        invariant
            i <= events.len(),
            all == event_views(events@),
            event_views(latest@) == latest_by_id(all.take(i as int)),
        decreases events.len() - i,
    {
        proof {
            assert(all.take(i + 1).drop_last() =~= all.take(i as int));
            assert(all.take(i + 1).last() == events@[i as int]@);
        }
        latest = without_id(&latest, events[i].id.as_str());
        let ghost before = event_views(latest@);
        latest.push(events[i].clone());
        proof {
            assert(event_views(latest@) =~= before.push(events@[i as int]@));
        }
        i += 1;
    }
    proof {
        assert(all.take(events.len() as int) =~= all);
        lemma_latest_ids_differ(all);
    }
    latest
}

} // verus!
