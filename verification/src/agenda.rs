//! The order in which events are shown: all-day events first, then by
//! ascending start time, events that tie keeping the order they came in.

use crate::models::calendar::{CalendarEvent, CalendarEventView};
use vstd::prelude::*;

verus! {

/// `a` may stand before `b`: `a` is all-day and `b` is not, or both are of
/// the same kind and `a` starts no later than `b`.
pub open spec fn precedes(a: CalendarEventView, b: CalendarEventView) -> bool {
    (a.all_day && !b.all_day) || (a.all_day == b.all_day && a.start_time <= b.start_time)
}

/// Every event may stand before every later one.
pub open spec fn is_ordered(events: Seq<CalendarEventView>) -> bool {
    forall|i: int, j: int| 0 <= i < j < events.len() ==> precedes(events[i], events[j])
}

/// `ordered` with `event` placed behind the last event that may stand before it.
pub open spec fn insert_ordered(
    ordered: Seq<CalendarEventView>,
    event: CalendarEventView,
) -> Seq<CalendarEventView>
    decreases ordered.len(),
{
    if ordered.len() == 0 {
        seq![event]
    } else if precedes(ordered.last(), event) {
        ordered.push(event)
    } else {
        insert_ordered(ordered.drop_last(), event).push(ordered.last())
    }
}

/// The stable arrangement of `events` in agenda order.
pub open spec fn agenda_order(events: Seq<CalendarEventView>) -> Seq<CalendarEventView>
    decreases events.len(),
{
    if events.len() == 0 {
        events
    } else {
        insert_ordered(agenda_order(events.drop_last()), events.last())
    }
}

/// The views of a list of events.
pub open spec fn event_views(events: Seq<CalendarEvent>) -> Seq<CalendarEventView> {
    Seq::new(events.len(), |i: int| events[i]@)
}

/// The relation is total: of two events, one may stand before the other.
pub proof fn lemma_precedes_total(a: CalendarEventView, b: CalendarEventView)
    ensures
        precedes(a, b) || precedes(b, a),
{
}

/// The relation is transitive.
pub proof fn lemma_precedes_transitive(
    a: CalendarEventView,
    b: CalendarEventView,
    c: CalendarEventView,
)
    requires
        precedes(a, b),
        precedes(b, c),
    ensures
        precedes(a, c),
{
}

/// Placing an event into an ordered list keeps the list ordered, adds
/// exactly that event, and leaves the others in their relative order: the
/// result is the list cut at the returned point, the event, and the rest.
/// The event lands behind every event that may stand before it.
pub proof fn lemma_insert_ordered(ordered: Seq<CalendarEventView>, event: CalendarEventView) -> (cut:
    int)
    requires
        is_ordered(ordered),
    ensures
        is_ordered(insert_ordered(ordered, event)),
        0 <= cut <= ordered.len(),
        insert_ordered(ordered, event) == ordered.insert(cut, event),
        forall|k: int| 0 <= k < cut ==> precedes(ordered[k], event),
        forall|k: int| cut <= k < ordered.len() ==> !precedes(ordered[k], event),
    decreases ordered.len(),
{
    let result = insert_ordered(ordered, event);
    if ordered.len() == 0 {
        assert(ordered.insert(0, event) =~= result);
        0
    } else if precedes(ordered.last(), event) {
        let cut = ordered.len() as int;
        assert(ordered.insert(cut, event) =~= result);
        assert forall|k: int| 0 <= k < cut implies precedes(ordered[k], event) by {
            if k < cut - 1 {
                lemma_precedes_transitive(ordered[k], ordered.last(), event);
            }
        }
        assert forall|i: int, j: int| 0 <= i < j < result.len() implies precedes(
            result[i],
            result[j],
        ) by {
            if j == cut {
                assert(precedes(ordered[i], event));
            }
        }
        cut
    } else {
        let front = ordered.drop_last();
        let cut = lemma_insert_ordered(front, event);
        let inner = insert_ordered(front, event);
        assert(ordered.insert(cut, event) =~= result);
        assert forall|k: int| 0 <= k < cut implies precedes(ordered[k], event) by {
            assert(front[k] == ordered[k]);
        }
        assert forall|k: int| cut <= k < ordered.len() implies !precedes(ordered[k], event) by {
            if k < front.len() {
                assert(front[k] == ordered[k]);
            }
        }
        assert forall|i: int, j: int| 0 <= i < j < result.len() implies precedes(
            result[i],
            result[j],
        ) by {
            if j < result.len() - 1 {
                assert(precedes(inner[i], inner[j]));
            } else if i == cut {
                lemma_precedes_total(ordered.last(), event);
            } else if i < cut {
                assert(result[i] == ordered[i]);
            } else {
                assert(result[i] == ordered[i - 1]);
            }
        }
        cut
    }
}

/// The agenda order of any list is ordered.
pub proof fn lemma_agenda_order_is_ordered(events: Seq<CalendarEventView>)
    ensures
        is_ordered(agenda_order(events)),
    decreases events.len(),
{
    if events.len() > 0 {
        lemma_agenda_order_is_ordered(events.drop_last());
        let _ = lemma_insert_ordered(agenda_order(events.drop_last()), events.last());
    }
}

/// The agenda order of a list holds exactly the events of the list, each as
/// often as the list holds it.
pub proof fn lemma_agenda_order_is_permutation(events: Seq<CalendarEventView>)
    ensures
        agenda_order(events).to_multiset() == events.to_multiset(),
        agenda_order(events).len() == events.len(),
    decreases events.len(),
{
    broadcast use vstd::seq_lib::group_to_multiset_ensures;

    if events.len() > 0 {
        let front = events.drop_last();
        lemma_agenda_order_is_permutation(front);
        lemma_agenda_order_is_ordered(front);
        let cut = lemma_insert_ordered(agenda_order(front), events.last());
        assert(events =~= front.push(events.last()));
        assert(agenda_order(front).insert(cut, events.last()).to_multiset() =~= agenda_order(
            front,
        ).to_multiset().insert(events.last()));
    }
}

/// What holds of every event of a list holds of every event of its agenda
/// order.
pub proof fn lemma_agenda_order_keeps_property(
    events: Seq<CalendarEventView>,
    property: spec_fn(CalendarEventView) -> bool,
)
    requires
        forall|i: int| 0 <= i < events.len() ==> property(#[trigger] events[i]),
    ensures
        forall|i: int|
            0 <= i < agenda_order(events).len() ==> property(#[trigger] agenda_order(events)[i]),
    decreases events.len(),
{
    if events.len() > 0 {
        let front = events.drop_last();
        assert forall|i: int| 0 <= i < front.len() implies property(#[trigger] front[i]) by {
            assert(front[i] == events[i]);
        }
        lemma_agenda_order_keeps_property(front, property);
        lemma_agenda_order_is_ordered(front);
        let cut = lemma_insert_ordered(agenda_order(front), events.last());
        let placed = agenda_order(events);
        assert(property(events[events.len() - 1]));
        assert forall|i: int| 0 <= i < placed.len() implies property(#[trigger] placed[i]) by {
            if i < cut {
                assert(placed[i] == agenda_order(front)[i]);
            } else if i > cut {
                assert(placed[i] == agenda_order(front)[i - 1]);
            }
        }
    }
}

/// An ordered list is its own agenda order.
pub proof fn lemma_ordered_is_fixed(events: Seq<CalendarEventView>)
    requires
        is_ordered(events),
    ensures
        agenda_order(events) == events,
    decreases events.len(),
{
    if events.len() > 0 {
        let front = events.drop_last();
        assert(is_ordered(front));
        lemma_ordered_is_fixed(front);
        if front.len() > 0 {
            assert(precedes(front.last(), events.last())) by {
                assert(front.last() == events[events.len() - 2]);
            }
        }
        assert(front.push(events.last()) =~= events);
    }
}

/// Tells whether `a` may stand before `b`.
pub fn may_precede(a: &CalendarEvent, b: &CalendarEvent) -> (before: bool)
    ensures
        before == precedes(a@, b@),
{
    (a.all_day && !b.all_day) || (a.all_day == b.all_day && a.start_time <= b.start_time)
}

/// Arranges events in agenda order.
pub fn sort_events(events: &Vec<CalendarEvent>) -> (sorted: Vec<CalendarEvent>)
    ensures
        event_views(sorted@) == agenda_order(event_views(events@)),
        is_ordered(event_views(sorted@)),
        sorted@.len() == events@.len(),
{
    let mut sorted: Vec<CalendarEvent> = Vec::new();
    let mut i: usize = 0;
    while i < events.len()
        invariant
            i <= events.len(),
            sorted@.len() == i,
            event_views(sorted@) == agenda_order(event_views(events@).take(i as int)),
        decreases events.len() - i,
    {
        let event = events[i].clone();
        let ghost before = event_views(sorted@);
        let mut pos: usize = sorted.len();
        proof {
            assert(before.take(pos as int) =~= before);
            assert(insert_ordered(before, event@) + before.skip(pos as int) =~= insert_ordered(
                before,
                event@,
            ));
        }
        while pos > 0 && !may_precede(&sorted[pos - 1], &event)
            invariant
                pos <= sorted.len(),
                before == event_views(sorted@),
                insert_ordered(before, event@) == insert_ordered(before.take(pos as int), event@)
                    + before.skip(pos as int),
            decreases pos,
        {
            proof {
                let head = before.take(pos as int);
                assert(head.last() == sorted@[pos - 1]@);
                assert(head.drop_last() =~= before.take(pos - 1));
                assert(insert_ordered(head, event@) == insert_ordered(head.drop_last(), event@).push(
                    head.last(),
                ));
                assert(insert_ordered(head.drop_last(), event@).push(head.last()) + before.skip(
                    pos as int,
                ) =~= insert_ordered(head.drop_last(), event@) + before.skip(pos - 1));
            }
            pos -= 1;
        }
        proof {
            let head = before.take(pos as int);
            if pos > 0 {
                assert(head.last() == sorted@[pos - 1]@);
            }
            assert(insert_ordered(head, event@) == head.push(event@));
            assert(head.push(event@) + before.skip(pos as int) =~= before.insert(
                pos as int,
                event@,
            ));
            let views = event_views(events@);
            assert(views.take(i + 1).drop_last() =~= views.take(i as int));
            assert(views.take(i + 1).last() == event@);
        }
        sorted.insert(pos, event);
        proof {
            assert(event_views(sorted@) =~= before.insert(pos as int, event@));
        }
        i += 1;
    }
    proof {
        assert(event_views(events@).take(events@.len() as int) =~= event_views(events@));
        lemma_agenda_order_is_ordered(event_views(events@));
    }
    sorted
}

} // verus!
