//! Turns a raw calendar document into normalized events.
//!
//! A DTSTART or DTEND value is either date-only (`YYYYMMDD`, midnight UTC of
//! that date), a UTC date-time (`YYYYMMDDTHHMMSS` followed by `Z`), or a
//! floating date-time (no `Z`). A floating value has no instant of its own:
//! it is bound to the zone of the machine that ingests it, so the same
//! document can give different instants on different machines.

use crate::agenda::{agenda_order, event_views, is_ordered, sort_events};
use crate::civil::{CivilDateTime, MAX_INSTANT, MIN_INSTANT};
use crate::error::{AppError, ErrorKind};
use crate::identity::{ids_differ, keep_latest, latest_by_id, lemma_agenda_order_keeps_ids_apart};
use crate::ics::{
    calendars_view, events_view, ical_calendars, params_view, parser_error_text, read_calendars,
    IcsEvent, IcsParam, IcsProperty, IcsPropertyView,
};
use crate::models::calendar::{CalendarEvent, CalendarEventView};
use crate::text::{copy_opt_text, opt_text, same_text, texts};
use crate::time_window::{day_number, day_number_of, is_now, is_soon, live_at, soon_at};
use crate::timekeeping::{
    current_instant, local_instant, parse_date, parse_date_time, parsed_date, parsed_date_time,
    utc_date,
};
use vstd::prelude::*;
use vstd::string::*;

verus! {

/// What a time value denotes, as far as the text alone decides.
pub enum Reading {
    /// The value is not a date or date-time of the expected shape.
    Invalid,
    /// The value denotes this instant on every machine.
    Fixed(int),
    /// The value is a wall-clock reading that still needs a zone.
    Floating(CivilDateTime),
}

/// The executable form of a [`Reading`].
#[derive(Clone, Copy, Debug)]
pub enum TimeReading {
    Invalid,
    Fixed(i64),
    Floating(CivilDateTime),
}

impl View for TimeReading {
    type V = Reading;

    open spec fn view(&self) -> Reading {
        match self {
            TimeReading::Invalid => Reading::Invalid,
            TimeReading::Fixed(instant) => Reading::Fixed(*instant as int),
            TimeReading::Floating(reading) => Reading::Floating(*reading),
        }
    }
}

/// `value` without its trailing zone designators.
pub open spec fn trim_zone(value: Seq<char>) -> Seq<char>
    decreases value.len(),
{
    if value.len() > 0 && value.last() == 'Z' {
        trim_zone(value.drop_last())
    } else {
        value
    }
}

/// `value` ends in the zone designator `Z`.
pub open spec fn ends_with_zone(value: Seq<char>) -> bool {
    value.len() > 0 && value.last() == 'Z'
}

/// What `value` denotes when read as a date (`date_only`) or as a date-time.
pub open spec fn time_reading(value: Seq<char>, date_only: bool) -> Reading {
    if date_only {
        match parsed_date(value, "%Y%m%d"@) {
            Some(date) => if date.is_valid() {
                Reading::Fixed(date.midnight_utc())
            } else {
                Reading::Invalid
            },
            None => Reading::Invalid,
        }
    } else {
        match parsed_date_time(trim_zone(value), "%Y%m%dT%H%M%S"@) {
            Some(reading) => if !reading.is_valid() {
                Reading::Invalid
            } else if ends_with_zone(value) {
                Reading::Fixed(reading.instant_utc())
            } else {
                Reading::Floating(reading)
            },
            None => Reading::Invalid,
        }
    }
}

/// `instant` is an outcome that binding `reading` to a zone can have: a
/// fixed reading has its own instant, an invalid one has none, and a floating
/// one has whatever the zone gives.
pub open spec fn admits(reading: Reading, instant: Option<int>) -> bool {
    match reading {
        Reading::Invalid => instant is None,
        Reading::Fixed(fixed) => instant == Some(fixed),
        Reading::Floating(_) => true,
    }
}

/// The instant of a reading that needs no zone.
pub open spec fn fixed_instant(reading: Reading) -> Option<int> {
    match reading {
        Reading::Fixed(fixed) => Some(fixed),
        _ => None,
    }
}

/// The integer behind an optional instant.
pub open spec fn opt_instant(instant: Option<i64>) -> Option<int> {
    match instant {
        Some(i) => Some(i as int),
        None => None,
    }
}

/// Whether the first parameter keyed `VALUE` lists `DATE`; `None` when no
/// parameter has that key.
pub open spec fn declared_date(params: Seq<(Seq<char>, Seq<Seq<char>>)>) -> Option<bool>
    decreases params.len(),
{
    if params.len() == 0 {
        None
    } else if params.first().0 == "VALUE"@ {
        Some(params.first().1.contains("DATE"@))
    } else {
        declared_date(params.drop_first())
    }
}

/// A time value is date-only when its `VALUE` parameter says so; without
/// that parameter, when it is exactly eight characters long.
pub open spec fn is_date_only(
    params: Option<Seq<(Seq<char>, Seq<Seq<char>>)>>,
    value: Seq<char>,
) -> bool {
    match params {
        Some(list) => match declared_date(list) {
            Some(declared) => declared,
            None => value.len() == 8,
        },
        None => value.len() == 8,
    }
}

/// The last property with the given name.
pub open spec fn last_named(properties: Seq<IcsPropertyView>, name: Seq<char>) -> Option<
    IcsPropertyView,
>
    decreases properties.len(),
{
    if properties.len() == 0 {
        None
    } else if properties.last().name == name {
        Some(properties.last())
    } else {
        last_named(properties.drop_last(), name)
    }
}

/// The last property with the given name that carries a value.
pub open spec fn last_valued(properties: Seq<IcsPropertyView>, name: Seq<char>) -> Option<
    IcsPropertyView,
>
    decreases properties.len(),
{
    if properties.len() == 0 {
        None
    } else if properties.last().name == name && properties.last().value is Some {
        Some(properties.last())
    } else {
        last_valued(properties.drop_last(), name)
    }
}

/// A raw time value and how it is to be read.
#[derive(Debug)]
pub struct TimeField {
    pub value: String,
    pub date_only: bool,
}

/// The mathematical content of a [`TimeField`].
pub struct TimeFieldView {
    pub value: Seq<char>,
    pub date_only: bool,
}

impl View for TimeField {
    type V = TimeFieldView;

    open spec fn view(&self) -> TimeFieldView {
        TimeFieldView { value: self.value@, date_only: self.date_only }
    }
}

/// What one VEVENT says about itself, before any time value is read.
#[derive(Debug)]
pub struct EventFields {
    pub uid: Option<String>,
    pub summary: Option<String>,
    pub description: Option<String>,
    pub location: Option<String>,
    pub start: Option<TimeField>,
    pub end: Option<TimeField>,
}

/// The mathematical content of [`EventFields`].
pub struct EventFieldsView {
    pub uid: Option<Seq<char>>,
    pub summary: Option<Seq<char>>,
    pub description: Option<Seq<char>>,
    pub location: Option<Seq<char>>,
    pub start: Option<TimeFieldView>,
    pub end: Option<TimeFieldView>,
}

/// The view of an optional time field.
pub open spec fn opt_time_field(field: Option<TimeField>) -> Option<TimeFieldView> {
    match field {
        Some(f) => Some(f@),
        None => None,
    }
}

impl View for EventFields {
    type V = EventFieldsView;

    open spec fn view(&self) -> EventFieldsView {
        EventFieldsView {
            uid: opt_text(self.uid),
            summary: opt_text(self.summary),
            description: opt_text(self.description),
            location: opt_text(self.location),
            start: opt_time_field(self.start),
            end: opt_time_field(self.end),
        }
    }
}

/// The value of an optional property.
pub open spec fn value_of(property: Option<IcsPropertyView>) -> Option<Seq<char>> {
    match property {
        Some(p) => p.value,
        None => None,
    }
}

/// The time field that a valued property holds.
pub open spec fn time_field_of(property: Option<IcsPropertyView>) -> Option<TimeFieldView> {
    match property {
        Some(p) => match p.value {
            Some(value) => Some(
                TimeFieldView { value: value, date_only: is_date_only(p.params, value) },
            ),
            None => None,
        },
        None => None,
    }
}

/// What a property list says: for UID, SUMMARY, DESCRIPTION and LOCATION the
/// value of the last property of that name; for DTSTART and DTEND the last
/// property of that name that has a value. Other properties are ignored.
pub open spec fn event_fields(properties: Seq<IcsPropertyView>) -> EventFieldsView {
    EventFieldsView {
        uid: value_of(last_named(properties, "UID"@)),
        summary: value_of(last_named(properties, "SUMMARY"@)),
        description: value_of(last_named(properties, "DESCRIPTION"@)),
        location: value_of(last_named(properties, "LOCATION"@)),
        start: time_field_of(last_valued(properties, "DTSTART"@)),
        end: time_field_of(last_valued(properties, "DTEND"@)),
    }
}

/// The reading of an optional time field; an absent field reads as invalid.
pub open spec fn field_reading(field: Option<TimeFieldView>) -> Reading {
    match field {
        Some(f) => time_reading(f.value, f.date_only),
        None => Reading::Invalid,
    }
}

/// An instant that the date library can place on the calendar.
pub open spec fn representable(instant: int) -> bool {
    MIN_INSTANT <= instant <= MAX_INSTANT
}

/// The title of an event: its summary, or a placeholder when the summary is
/// absent or empty.
pub open spec fn title_of(summary: Option<Seq<char>>) -> Seq<char> {
    match summary {
        Some(text) => if text.len() == 0 {
            "(No title)"@
        } else {
            text
        },
        None => "(No title)"@,
    }
}

/// The instant at which an event ends: the given end when it lies after the
/// start, else one hour after the start. An end that is missing, unreadable
/// or not after the start is thus replaced, so that every event ends after
/// it starts.
pub open spec fn end_after(start: int, end: Option<int>) -> int {
    match end {
        Some(instant) => if instant > start {
            instant
        } else {
            start + 3600
        },
        None => start + 3600,
    }
}

/// The event that the fields and the two instants make, if they make one.
///
/// No event comes out without a UID or a start. The title is never empty.
/// The event ends after it starts (see [`end_after`]). Both instants must be
/// representable, the event must end on or after `today` and start on or
/// before `tomorrow` (UTC day numbers), and the liveness flags are taken at
/// `now`.
pub open spec fn assemble(
    fields: EventFieldsView,
    start: Option<int>,
    end: Option<int>,
    today: int,
    tomorrow: int,
    now: int,
) -> Option<CalendarEventView> {
    if fields.uid is None || start is None {
        None
    } else {
        let start_time = start.unwrap();
        let end_time = end_after(start_time, end);
        if !representable(start_time) || !representable(end_time) {
            None
        } else if day_number(start_time) > tomorrow || day_number(end_time) < today {
            None
        } else {
            Some(
                CalendarEventView {
                    id: fields.uid.unwrap(),
                    summary: title_of(fields.summary),
                    description: fields.description,
                    location: fields.location,
                    start_time: start_time,
                    end_time: end_time,
                    all_day: fields.start matches Some(f) && f.date_only,
                    html_link: None,
                    is_now: is_now(now, start_time, end_time),
                    is_soon: is_soon(now, start_time, end_time),
                },
            )
        }
    }
}

/// The view of an optional event.
pub open spec fn opt_event(event: Option<CalendarEvent>) -> Option<CalendarEventView> {
    match event {
        Some(e) => Some(e@),
        None => None,
    }
}

/// The two instants are outcomes that binding the event's time values can
/// have.
pub open spec fn resolves(
    properties: Seq<IcsPropertyView>,
    start: Option<int>,
    end: Option<int>,
) -> bool {
    admits(field_reading(event_fields(properties).start), start) && admits(
        field_reading(event_fields(properties).end),
        end,
    )
}

/// Neither time value of the event is floating.
pub open spec fn is_zoned(properties: Seq<IcsPropertyView>) -> bool {
    !(field_reading(event_fields(properties).start) is Floating) && !(field_reading(
        event_fields(properties).end,
    ) is Floating)
}

/// The event that a zoned VEVENT normalizes to, on every machine.
pub open spec fn normalized_event(
    properties: Seq<IcsPropertyView>,
    today: int,
    tomorrow: int,
    now: int,
) -> Option<CalendarEventView> {
    let fields = event_fields(properties);
    assemble(
        fields,
        fixed_instant(field_reading(fields.start)),
        fixed_instant(field_reading(fields.end)),
        today,
        tomorrow,
        now,
    )
}

/// The VEVENT blocks of a document, calendar after calendar.
pub open spec fn all_events(calendars: Seq<Seq<Seq<IcsPropertyView>>>) -> Seq<Seq<IcsPropertyView>>
    decreases calendars.len(),
{
    if calendars.len() == 0 {
        Seq::empty()
    } else {
        all_events(calendars.drop_last()) + calendars.last()
    }
}

/// The instants given to the start and the end of one event.
pub type Binding = (Option<int>, Option<int>);

/// The events that come out of `raw` when its time values have the instants
/// in `bindings`, in document order; events that [`assemble`] drops are left
/// out.
pub open spec fn kept_events(
    raw: Seq<Seq<IcsPropertyView>>,
    bindings: Seq<Binding>,
    today: int,
    tomorrow: int,
    now: int,
) -> Seq<CalendarEventView>
    decreases raw.len(),
{
    if raw.len() == 0 {
        Seq::empty()
    } else {
        let front = kept_events(raw.drop_last(), bindings.drop_last(), today, tomorrow, now);
        match assemble(
            event_fields(raw.last()),
            bindings.last().0,
            bindings.last().1,
            today,
            tomorrow,
            now,
        ) {
            Some(event) => front.push(event),
            None => front,
        }
    }
}

/// There is one binding for each event, and each is an outcome that the
/// event's time values can have.
pub open spec fn bindings_resolve(raw: Seq<Seq<IcsPropertyView>>, bindings: Seq<Binding>) -> bool {
    bindings.len() == raw.len() && forall|i: int|
        0 <= i < raw.len() ==> resolves(#[trigger] raw[i], bindings[i].0, bindings[i].1)
}

/// The bindings that the text alone gives: a fixed reading has its instant,
/// any other has none.
pub open spec fn fixed_bindings(raw: Seq<Seq<IcsPropertyView>>) -> Seq<Binding> {
    Seq::new(
        raw.len(),
        |i: int|
            (
                fixed_instant(field_reading(event_fields(raw[i]).start)),
                fixed_instant(field_reading(event_fields(raw[i]).end)),
            ),
    )
}

/// No event of the list has a floating time value.
pub open spec fn all_zoned(raw: Seq<Seq<IcsPropertyView>>) -> bool {
    forall|i: int| 0 <= i < raw.len() ==> is_zoned(#[trigger] raw[i])
}

/// What comes out of `raw` at `now` when its time values have the instants
/// in `bindings`: the kept events, one per id, in agenda order. The coarse
/// date filter keeps events that end on or after the UTC day of `now` and
/// start on or before the day after.
pub open spec fn arranged_events(
    raw: Seq<Seq<IcsPropertyView>>,
    bindings: Seq<Binding>,
    now: int,
) -> Seq<CalendarEventView> {
    agenda_order(
        latest_by_id(kept_events(raw, bindings, day_number(now), day_number(now) + 1, now)),
    )
}

/// `events` is what ingesting `raw` at `now` can give: the arranged events
/// under some admissible binding of the time values.
pub open spec fn ingests(
    raw: Seq<Seq<IcsPropertyView>>,
    now: int,
    events: Seq<CalendarEventView>,
) -> bool {
    exists|bindings: Seq<Binding>| #[trigger]
        bindings_resolve(raw, bindings) && events == arranged_events(raw, bindings, now)
}

/// What a document without floating time values normalizes to at `now`, on
/// every machine.
pub open spec fn normalized_events(raw: Seq<Seq<IcsPropertyView>>, now: int) -> Seq<
    CalendarEventView,
> {
    arranged_events(raw, fixed_bindings(raw), now)
}

/// An event without floating time values has one admissible binding.
pub proof fn lemma_zoned_binding_is_fixed(
    properties: Seq<IcsPropertyView>,
    start: Option<int>,
    end: Option<int>,
)
    requires
        is_zoned(properties),
        resolves(properties, start, end),
    ensures
        start == fixed_instant(field_reading(event_fields(properties).start)),
        end == fixed_instant(field_reading(event_fields(properties).end)),
{
}

/// A document without floating time values has one admissible list of
/// bindings, so ingesting it gives [`normalized_events`] and nothing else.
pub proof fn lemma_zoned_document_is_determined(
    raw: Seq<Seq<IcsPropertyView>>,
    now: int,
    events: Seq<CalendarEventView>,
)
    requires
        all_zoned(raw),
        ingests(raw, now, events),
    ensures
        events == normalized_events(raw, now),
{
    let bindings = choose|bindings: Seq<Binding>| #[trigger]
        bindings_resolve(raw, bindings) && events == arranged_events(raw, bindings, now);
    assert forall|i: int| 0 <= i < raw.len() implies bindings[i] == fixed_bindings(raw)[i] by {
        assert(resolves(raw[i], bindings[i].0, bindings[i].1));
        assert(is_zoned(raw[i]));
        lemma_zoned_binding_is_fixed(raw[i], bindings[i].0, bindings[i].1);
    }
    assert(bindings =~= fixed_bindings(raw));
}

/// Computes [`trim_zone`].
fn strip_zone(value: &str) -> (trimmed: &str)
    ensures
        trimmed@ == trim_zone(value@),
{
    let mut keep: usize = value.unicode_len();
    proof {
        assert(value@.take(keep as int) =~= value@);
    }
    while keep > 0 && value.get_char(keep - 1) == 'Z'
        invariant
            keep <= value@.len(),
            trim_zone(value@) == trim_zone(value@.take(keep as int)),
        decreases keep,
    {
        proof {
            assert(value@.take(keep as int).drop_last() =~= value@.take(keep - 1));
        }
        keep -= 1;
    }
    proof {
        assert(value@.subrange(0, keep as int) =~= value@.take(keep as int));
    }
    value.substring_char(0, keep)
}

/// Computes [`ends_with_zone`].
fn has_zone(value: &str) -> (zoned: bool)
    ensures
        zoned == ends_with_zone(value@),
{
    let length: usize = value.unicode_len();
    length > 0 && value.get_char(length - 1) == 'Z'
}

/// Reads a time value as far as the text alone decides.
pub fn read_time(value: &str, date_only: bool) -> (reading: TimeReading)
    ensures
        reading@ == time_reading(value@, date_only),
        reading matches TimeReading::Floating(r) ==> r.is_valid(),
{
    if date_only {
        match parse_date(value, "%Y%m%d") {
            Some(date) => TimeReading::Fixed(date.midnight()),
            None => TimeReading::Invalid,
        }
    } else {
        let trimmed = strip_zone(value);
        match parse_date_time(trimmed, "%Y%m%dT%H%M%S") {
            Some(reading) => {
                if has_zone(value) {
                    TimeReading::Fixed(reading.to_instant_utc())
                } else {
                    TimeReading::Floating(reading)
                }
            },
            None => TimeReading::Invalid,
        }
    }
}

/// Tells whether a list of parameter values holds `DATE`.
fn lists_date(values: &Vec<String>) -> (found: bool)
    ensures
        found == texts(values@).contains("DATE"@),
{
    let mut i: usize = 0;
    while i < values.len()
        invariant
            i <= values.len(),
            forall|k: int| 0 <= k < i ==> texts(values@)[k] != "DATE"@,
        decreases values.len() - i,
    {
        if same_text(values[i].as_str(), "DATE") {
            proof {
                assert(texts(values@)[i as int] == "DATE"@);
            }
            return true;
        }
        i += 1;
    }
    false
}

/// Computes [`declared_date`].
fn find_declared_date(params: &Vec<IcsParam>) -> (declared: Option<bool>)
    ensures
        declared == declared_date(params_view(params@)),
{
    let ghost all = params_view(params@);
    let mut i: usize = 0;
    proof {
        assert(all.skip(0) =~= all);
    }
    while i < params.len()
        invariant
            i <= params.len(),
            all == params_view(params@),
            declared_date(all) == declared_date(all.skip(i as int)),
        decreases params.len() - i,
    {
        proof {
            assert(all.skip(i as int).first() == all[i as int]);
            assert(all.skip(i as int).drop_first() =~= all.skip(i + 1));
        }
        if same_text(params[i].0.as_str(), "VALUE") {
            return Some(lists_date(&params[i].1));
        }
        i += 1;
    }
    None
}

/// Computes [`is_date_only`].
fn value_is_date_only(params: &Option<Vec<IcsParam>>, value: &str) -> (date_only: bool)
    ensures
        date_only == is_date_only(
            match *params {
                Some(list) => Some(params_view(list@)),
                None => None,
            },
            value@,
        ),
{
    let declared: Option<bool> = match params {
        Some(list) => find_declared_date(list),
        None => None,
    };
    match declared {
        Some(flag) => flag,
        None => value.unicode_len() == 8,
    }
}

/// Reads the time field out of a property that carries a value.
fn time_field(property: &IcsProperty) -> (field: Option<TimeField>)
    ensures
        opt_time_field(field) == time_field_of(Some(property@)),
{
    match &property.value {
        Some(value) => {
            let date_only = value_is_date_only(&property.params, value.as_str());
            Some(TimeField { value: value.clone(), date_only: date_only })
        },
        None => None,
    }
}

/// The six property names that the normalizer reads are pairwise different.
proof fn lemma_names_differ()
    ensures
        "UID"@ != "SUMMARY"@,
        "UID"@ != "DESCRIPTION"@,
        "UID"@ != "LOCATION"@,
        "UID"@ != "DTSTART"@,
        "UID"@ != "DTEND"@,
        "SUMMARY"@ != "DESCRIPTION"@,
        "SUMMARY"@ != "LOCATION"@,
        "SUMMARY"@ != "DTSTART"@,
        "SUMMARY"@ != "DTEND"@,
        "DESCRIPTION"@ != "LOCATION"@,
        "DESCRIPTION"@ != "DTSTART"@,
        "DESCRIPTION"@ != "DTEND"@,
        "LOCATION"@ != "DTSTART"@,
        "LOCATION"@ != "DTEND"@,
        "DTSTART"@ != "DTEND"@,
{
    reveal_strlit("UID");
    reveal_strlit("SUMMARY");
    reveal_strlit("DESCRIPTION");
    reveal_strlit("LOCATION");
    reveal_strlit("DTSTART");
    reveal_strlit("DTEND");
    assert("UID"@.len() == 3);
    assert("SUMMARY"@.len() == 7);
    assert("DESCRIPTION"@.len() == 11);
    assert("LOCATION"@.len() == 8);
    assert("DTSTART"@.len() == 7);
    assert("DTEND"@.len() == 5);
    assert("SUMMARY"@[0] == 'S');
    assert("DTSTART"@[0] == 'D');
}

/// Collects what a VEVENT says about itself.
pub fn extract_fields(event: &IcsEvent) -> (fields: EventFields)
    ensures
        fields@ == event_fields(event@),
{
    let mut fields = EventFields {
        uid: None,
        summary: None,
        description: None,
        location: None,
        start: None,
        end: None,
    };
    let ghost all = event@;
    let mut i: usize = 0;
    while i < event.properties.len()
        invariant
            i <= event.properties.len(),
            all == event@,
            fields@ == event_fields(all.take(i as int)),
        decreases event.properties.len() - i,
    {
        let property = &event.properties[i];
        proof {
            lemma_names_differ();
            assert(all.take(i + 1).drop_last() =~= all.take(i as int));
            assert(all.take(i + 1).last() == property@);
        }
        let name = property.name.as_str();
        if same_text(name, "UID") {
            fields.uid = copy_opt_text(&property.value);
        } else if same_text(name, "SUMMARY") {
            fields.summary = copy_opt_text(&property.value);
        } else if same_text(name, "DESCRIPTION") {
            fields.description = copy_opt_text(&property.value);
        } else if same_text(name, "LOCATION") {
            fields.location = copy_opt_text(&property.value);
        } else if same_text(name, "DTSTART") {
            if property.value.is_some() {
                fields.start = time_field(property);
            }
        } else if same_text(name, "DTEND") {
            if property.value.is_some() {
                fields.end = time_field(property);
            }
        }
        i += 1;
    }
    proof {
        assert(all.take(event.properties.len() as int) =~= all);
    }
    fields
}

/// Makes the event out of its fields and the instants of its time values.
pub fn assemble_event(
    fields: EventFields,
    start: Option<i64>,
    end: Option<i64>,
    today: i64,
    tomorrow: i64,
    now: i64,
) -> (event: Option<CalendarEvent>)
    ensures
        opt_event(event) == assemble(
            fields@,
            opt_instant(start),
            opt_instant(end),
            today as int,
            tomorrow as int,
            now as int,
        ),
{
    let uid: String = match fields.uid {
        Some(uid) => uid,
        None => {
            return None;
        },
    };
    let start_time: i64 = match start {
        Some(instant) => instant,
        None => {
            return None;
        },
    };
    let given: Option<i64> = match end {
        Some(instant) => if instant > start_time {
            Some(instant)
        } else {
            None
        },
        None => None,
    };
    let end_time: i64 = match given {
        Some(instant) => instant,
        None => match start_time.checked_add(3600) {
            Some(instant) => instant,
            None => {
                return None;
            },
        },
    };
    let start_date = match utc_date(start_time) {
        Some(date) => date,
        None => {
            return None;
        },
    };
    let end_date = match utc_date(end_time) {
        Some(date) => date,
        None => {
            return None;
        },
    };
    if start_date.days_since_epoch() > tomorrow || end_date.days_since_epoch() < today {
        return None;
    }
    let summary: String = match fields.summary {
        Some(summary) => {
            if summary.as_str().is_empty() {
                "(No title)".to_owned()
            } else {
                summary
            }
        },
        None => "(No title)".to_owned(),
    };
    let all_day: bool = match fields.start {
        Some(field) => field.date_only,
        None => false,
    };
    Some(
        CalendarEvent {
            id: uid,
            summary: summary,
            description: fields.description,
            location: fields.location,
            start_time: start_time,
            end_time: end_time,
            all_day: all_day,
            html_link: None,
            is_now: live_at(now, start_time, end_time),
            is_soon: soon_at(now, start_time, end_time),
        },
    )
}

/// The service that reads calendar documents.
pub struct CalendarService;

impl CalendarService {
    /// Makes the service; it holds no state.
    pub fn new() -> (service: CalendarService) {
        CalendarService
    }

    /// Gives a time value its instant.
    ///
    /// A date-only value and a UTC date-time have the instant that the text
    /// denotes. A floating date-time gets the earliest instant that the
    /// machine's zone gives it, or none where the zone skips it.
    pub fn parse_datetime(&self, value: &str, is_date_only: bool) -> (instant: Option<i64>)
        ensures
            admits(time_reading(value@, is_date_only), opt_instant(instant)),
    {
        match read_time(value, is_date_only) {
            TimeReading::Invalid => None,
            TimeReading::Fixed(instant) => Some(instant),
            TimeReading::Floating(reading) => local_instant(&reading),
        }
    }

    /// Gives an optional time field its instant.
    fn field_instant(&self, field: &Option<TimeField>) -> (instant: Option<i64>)
        ensures
            admits(field_reading(opt_time_field(*field)), opt_instant(instant)),
    {
        match field {
            Some(f) => self.parse_datetime(f.value.as_str(), f.date_only),
            None => None,
        }
    }

    /// Normalizes one VEVENT, or drops it.
    ///
    /// The event is what [`assemble`] makes of the event's fields and of
    /// instants that its time values can have. For an event without floating
    /// time values that is [`normalized_event`]. An event that comes out ends
    /// after it starts.
    pub fn parse_event(&self, event: &IcsEvent, today: i64, tomorrow: i64, now: i64) -> (parsed:
        Option<CalendarEvent>)
        ensures
            exists|start: Option<int>, end: Option<int>| #[trigger]
                resolves(event@, start, end) && opt_event(parsed) == assemble(
                    event_fields(event@),
                    start,
                    end,
                    today as int,
                    tomorrow as int,
                    now as int,
                ),
            is_zoned(event@) ==> opt_event(parsed) == normalized_event(
                event@,
                today as int,
                tomorrow as int,
                now as int,
            ),
            parsed matches Some(made) ==> made.end_time > made.start_time,
    {
        let fields = extract_fields(event);
        let start = self.field_instant(&fields.start);
        let end = self.field_instant(&fields.end);
        proof {
            assert(resolves(event@, opt_instant(start), opt_instant(end)));
        }
        assemble_event(fields, start, end, today, tomorrow, now)
    }

    /// Normalizes the calendars that the reader handed out, with the clock
    /// reading `now`.
    ///
    /// Each VEVENT is normalized or dropped on its own; of several kept
    /// events with one UID the last stands for all; and the result is in
    /// agenda order. The events are those that [`ingests`] describes, and for
    /// calendars without floating time values they are
    /// [`normalized_events`], on every machine.
    pub fn normalize_calendars(&self, calendars: &Vec<Vec<IcsEvent>>, now: i64) -> (events: Vec<
        CalendarEvent,
    >)
        ensures
            ingests(all_events(calendars_view(calendars@)), now as int, event_views(events@)),
            is_ordered(event_views(events@)),
            ids_differ(event_views(events@)),
            all_zoned(all_events(calendars_view(calendars@))) ==> event_views(events@)
                == normalized_events(all_events(calendars_view(calendars@)), now as int),
    {
        let today: i64 = day_number_of(now);
        let tomorrow: i64 = today + 1;
        let ghost document = calendars_view(calendars@);
        let ghost mut bindings: Seq<Binding> = Seq::empty();
        let mut events: Vec<CalendarEvent> = Vec::new();
        let mut i: usize = 0;
        while i < calendars.len()
            invariant
                i <= calendars.len(),
                document == calendars_view(calendars@),
                today == day_number(now as int),
                tomorrow == today + 1,
                bindings_resolve(all_events(document.take(i as int)), bindings),
                event_views(events@) == kept_events(
                    all_events(document.take(i as int)),
                    bindings,
                    today as int,
                    tomorrow as int,
                    now as int,
                ),
            decreases calendars.len() - i,
        {
            let calendar = &calendars[i];
            let ghost before = all_events(document.take(i as int));
            let ghost block = events_view(calendar@);
            let mut j: usize = 0;
            proof {
                assert(before + block.take(0) =~= before);
            }
            while j < calendar.len()
                invariant
                    j <= calendar.len(),
                    block == events_view(calendar@),
                    bindings_resolve(before + block.take(j as int), bindings),
                    event_views(events@) == kept_events(
                        before + block.take(j as int),
                        bindings,
                        today as int,
                        tomorrow as int,
                        now as int,
                    ),
                decreases calendar.len() - j,
            {
                let parsed = self.parse_event(&calendar[j], today, tomorrow, now);
                proof {
                    let properties = calendar@[j as int]@;
                    let fields = event_fields(properties);
                    let (start, end) = choose|start: Option<int>, end: Option<int>| #[trigger]
                        resolves(properties, start, end) && opt_event(parsed) == assemble(
                            fields,
                            start,
                            end,
                            today as int,
                            tomorrow as int,
                            now as int,
                        );
                    let binding: Binding = (start, end);
                    let raw = before + block.take(j as int);
                    let longer = before + block.take(j + 1);
                    let extended = bindings.push(binding);
                    assert(longer =~= raw.push(properties));
                    assert(longer.drop_last() =~= raw);
                    assert(extended.drop_last() =~= bindings);
                    assert(bindings_resolve(longer, extended)) by {
                        assert forall|k: int| 0 <= k < longer.len() implies resolves(
                            #[trigger] longer[k],
                            extended[k].0,
                            extended[k].1,
                        ) by {
                            if k < raw.len() {
                                assert(resolves(raw[k], bindings[k].0, bindings[k].1));
                            }
                        }
                    }
                    bindings = extended;
                }
                let ghost old_views = event_views(events@);
                match parsed {
                    Some(event) => {
                        events.push(event);
                        proof {
                            assert(event_views(events@) =~= old_views.push(event@));
                        }
                    },
                    None => {},
                }
                j += 1;
            }
            proof {
                assert(block.take(calendar.len() as int) =~= block);
                assert(document.take(i + 1).drop_last() =~= document.take(i as int));
                assert(document.take(i + 1).last() == block);
            }
            i += 1;
        }
        proof {
            assert(document.take(calendars.len() as int) =~= document);
        }
        let latest = keep_latest(&events);
        let sorted = sort_events(&latest);
        proof {
            let raw = all_events(document);
            assert(bindings_resolve(raw, bindings));
            assert(event_views(sorted@) == arranged_events(raw, bindings, now as int));
            assert(ingests(raw, now as int, event_views(sorted@)));
            if all_zoned(raw) {
                lemma_zoned_document_is_determined(raw, now as int, event_views(sorted@));
            }
            lemma_agenda_order_keeps_ids_apart(event_views(latest@));
        }
        sorted
    }

    /// Normalizes a document with the clock reading `now`.
    ///
    /// A document that the reader rejects is a parse error. Any other
    /// document gives what [`CalendarService::normalize_calendars`] makes of
    /// the calendars that the reader hands out.
    pub fn parse_ics_content_at(&self, content: &str, now: i64) -> (parsed: Result<
        Vec<CalendarEvent>,
        AppError,
    >)
        ensures
            parsed is Err <==> ical_calendars(content@) is None,
            parsed matches Err(error) ==> error.kind() == ErrorKind::Parse
                && "iCal parse error: "@.is_prefix_of(error.text()),
            parsed matches Ok(events) ==> ingests(
                all_events(ical_calendars(content@).unwrap()),
                now as int,
                event_views(events@),
            ) && is_ordered(event_views(events@)) && ids_differ(event_views(events@)),
            parsed matches Ok(events) ==> (all_zoned(all_events(ical_calendars(content@).unwrap()))
                ==> event_views(events@) == normalized_events(
                all_events(ical_calendars(content@).unwrap()),
                now as int,
            )),
    {
        let calendars = match read_calendars(content) {
            Ok(calendars) => calendars,
            Err(error) => {
                let text = parser_error_text(&error);
                let message = String::from_str("iCal parse error: ").concat(text.as_str());
                proof {
                    assert("iCal parse error: "@ =~= message@.subrange(
                        0,
                        "iCal parse error: "@.len() as int,
                    ));
                }
                return Err(AppError::Parse(message));
            },
        };
        Ok(self.normalize_calendars(&calendars, now))
    }

    /// Normalizes a document at the machine's current time.
    ///
    /// The clock decides the date filter and the liveness flags, so the
    /// result is what [`CalendarService::parse_ics_content_at`] gives for
    /// some instant that fits the clock's 64-bit reading.
    pub fn parse_ics_content(&self, content: &str) -> (parsed: Result<Vec<CalendarEvent>, AppError>)
        ensures
            parsed is Err <==> ical_calendars(content@) is None,
            parsed matches Err(error) ==> error.kind() == ErrorKind::Parse
                && "iCal parse error: "@.is_prefix_of(error.text()),
            parsed matches Ok(events) ==> is_ordered(event_views(events@)) && ids_differ(
                event_views(events@),
            ) && exists|now: int|
                i64::MIN <= now <= i64::MAX && #[trigger] ingests(
                    all_events(ical_calendars(content@).unwrap()),
                    now,
                    event_views(events@),
                ),
    {
        let now = current_instant();
        self.parse_ics_content_at(content, now)
    }
}

} // verus!
