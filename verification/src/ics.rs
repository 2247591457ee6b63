//! The raw shape of a calendar document: property bags grouped by event and
//! by calendar, as the iCalendar reader hands them out.

use crate::text::{opt_text, texts};
use ical::parser::ParserError;
use ical::IcalParser;
use std::io::BufReader;
use vstd::prelude::*;

verus! {

/// One parameter of a property: its key and its values.
pub type IcsParam = (String, Vec<String>);

/// One content line of a calendar document: `NAME[;PARAMS]:VALUE`.
#[derive(Debug)]
pub struct IcsProperty {
    pub name: String,
    pub params: Option<Vec<IcsParam>>,
    pub value: Option<String>,
}

/// The mathematical content of an [`IcsProperty`].
pub struct IcsPropertyView {
    pub name: Seq<char>,
    pub params: Option<Seq<(Seq<char>, Seq<Seq<char>>)>>,
    pub value: Option<Seq<char>>,
}

/// The mathematical content of a parameter list.
pub open spec fn params_view(params: Seq<IcsParam>) -> Seq<(Seq<char>, Seq<Seq<char>>)> {
    Seq::new(params.len(), |i: int| (params[i].0@, texts(params[i].1@)))
}

impl View for IcsProperty {
    type V = IcsPropertyView;

    open spec fn view(&self) -> IcsPropertyView {
        IcsPropertyView {
            name: self.name@,
            params: match self.params {
                Some(params) => Some(params_view(params@)),
                None => None,
            },
            value: opt_text(self.value),
        }
    }
}

/// The properties of one VEVENT block, in document order.
#[derive(Debug)]
pub struct IcsEvent {
    pub properties: Vec<IcsProperty>,
}

/// The mathematical content of a property list.
pub open spec fn properties_view(properties: Seq<IcsProperty>) -> Seq<IcsPropertyView> {
    Seq::new(properties.len(), |i: int| properties[i]@)
}

impl View for IcsEvent {
    type V = Seq<IcsPropertyView>;

    open spec fn view(&self) -> Seq<IcsPropertyView> {
        properties_view(self.properties@)
    }
}

/// The mathematical content of the events of one calendar.
pub open spec fn events_view(events: Seq<IcsEvent>) -> Seq<Seq<IcsPropertyView>> {
    Seq::new(events.len(), |i: int| events[i]@)
}

/// The mathematical content of the calendars of one document.
pub open spec fn calendars_view(calendars: Seq<Vec<IcsEvent>>) -> Seq<Seq<Seq<IcsPropertyView>>> {
    Seq::new(calendars.len(), |i: int| events_view(calendars[i]@))
}

#[verifier::external_type_specification]
#[verifier::external_body]
pub struct ExParserError(ParserError);

/// What `ical::IcalParser` reads out of a document: for each VCALENDAR block
/// its VEVENT blocks, each as its list of properties; `None` when the reader
/// reports an error for any block.
pub uninterp spec fn ical_calendars(content: Seq<char>) -> Option<Seq<Seq<Seq<IcsPropertyView>>>>;

/// Runs `ical::IcalParser` over the whole document and collects the events of
/// every calendar, stopping at the first calendar that the reader rejects.
///
/// Trusted: whether the reader accepts the document, and what it reads out
/// of it, depend on the text alone.
#[verifier::external_body]
pub(crate) fn read_calendars(content: &str) -> (calendars: Result<Vec<Vec<IcsEvent>>, ParserError>)
    ensures
        calendars is Ok <==> ical_calendars(content@) is Some,
        calendars matches Ok(list) ==> ical_calendars(content@) == Some(calendars_view(list@)),
{
    IcalParser::new(BufReader::new(content.as_bytes()))
        .map(|calendar| calendar.map(|c| c.events.into_iter().map(|e| IcsEvent {
            properties: e.properties.into_iter().map(|p| IcsProperty {
                name: p.name,
                params: p.params,
                value: p.value,
            }).collect(),
        }).collect()))
        .collect()
}

/// Renders the reader's error through its `Display` impl.
///
/// Nothing is promised of the text.
#[verifier::external_body]
pub(crate) fn parser_error_text(error: &ParserError) -> (text: String) {
    error.to_string()
}

} // verus!
