//! The events quick_xml reads from a BPMN document.

use vstd::prelude::*;
use vstd::utf8::{decode_utf8, valid_utf8};
use quick_xml::escape::unescape;
use quick_xml::events::Event::{CData as CDataEvent, End as EndEvent, Eof, Start, Text as TextEvent};
use quick_xml::Reader;
use self::XmlEvent::{CData, End, Other, Tag, Text};

verus! {

/// What the reader gives for one XML event.
#[derive(Debug)]
pub enum XmlEvent {
    /// A start tag (an empty-element tag comes as a start tag and an end
    /// tag): its name and its attributes in order, `None` for one that does
    /// not parse.
    Tag(Vec<u8>, Vec<Option<(Vec<u8>, Vec<u8>)>>),
    /// Text between tags, trimmed, as it stands in the document (escaped).
    Text(Vec<u8>),
    /// The content of a CDATA section.
    CData(Vec<u8>),
    /// An end tag.
    End,
    /// Any other event: a comment, a declaration, a processing instruction.
    Other,
}

/// The content of an XML event.
pub enum XmlEventView {
    Tag(Seq<u8>, Seq<Option<(Seq<u8>, Seq<u8>)>>),
    Text(Seq<u8>),
    CData(Seq<u8>),
    End,
    Other,
}

/// The content of a sequence of attributes.
pub open spec fn attributes_view(a: Seq<Option<(Vec<u8>, Vec<u8>)>>) -> Seq<Option<(Seq<u8>, Seq<u8>)>> {
    a.map_values(
        |o: Option<(Vec<u8>, Vec<u8>)>|
            match o {
                Some(p) => Some((p.0@, p.1@)),
                None => None,
            },
    )
}

impl View for XmlEvent {
    type V = XmlEventView;

    open spec fn view(&self) -> XmlEventView {
        match self {
            XmlEvent::Tag(name, attributes) => XmlEventView::Tag(name@, attributes_view(attributes@)),
            XmlEvent::Text(bytes) => XmlEventView::Text(bytes@),
            XmlEvent::CData(bytes) => XmlEventView::CData(bytes@),
            XmlEvent::End => XmlEventView::End,
            XmlEvent::Other => XmlEventView::Other,
        }
    }
}

/// The content of a sequence of XML events.
pub open spec fn events_view(events: Seq<XmlEvent>) -> Seq<XmlEventView> {
    events.map_values(|e: XmlEvent| e@)
}

/// The events that quick_xml reads from `xml` (text trimmed, empty-element
/// tags expanded) up to the end of the input or up to an error, and the
/// error's description.
pub uninterp spec fn xml_events(xml: Seq<char>) -> (Seq<XmlEventView>, Option<Seq<char>>);

/// Calls `quick_xml::Reader::read_event` on a reader made by
/// `Reader::from_str(xml)` with `trim_text(true)` and
/// `expand_empty_elements(true)`, until the end of the input or an error;
/// the events it gives, and the error, are named `xml_events`.
#[verifier::external_body]
pub(crate) fn read_xml_events(xml: &str) -> (r: (Vec<XmlEvent>, Option<String>))
    ensures
        events_view(r.0@) == xml_events(xml@).0,
        match xml_events(xml@).1 {
            Some(m) => r.1 matches Some(e) && e@ == m,
            None => r.1 is None,
        },
{
    let mut reader = Reader::from_str(xml);
    reader.trim_text(true).expand_empty_elements(true);
    let mut events = vec![];
    loop {
        events.push(match reader.read_event() {
            Ok(Start(e)) => Tag(e.name().0.to_vec(),
                e.attributes().map(|a| a.ok().map(|a| (a.key.0.to_vec(), a.value.to_vec()))).collect()),
            Ok(TextEvent(t)) => Text(t.to_vec()),
            Ok(CDataEvent(t)) => CData(t.to_vec()),
            Ok(EndEvent(_)) => End,
            Ok(Eof) => return (events, None),
            Err(e) => return (events, Some(e.to_string())),
            _ => Other,
        });
    }
}

/// The text `String::from_utf8_lossy` makes of `bytes`.
pub uninterp spec fn lossy_utf8(bytes: Seq<u8>) -> Seq<char>;

/// Calls `String::from_utf8_lossy`, named `lossy_utf8`: valid UTF-8 is
/// decoded as it is.
#[verifier::external_body]
pub(crate) fn text_of_bytes(bytes: &Vec<u8>) -> (r: String)
    ensures
        r@ == lossy_utf8(bytes@),
        valid_utf8(bytes@) ==> r@ == decode_utf8(bytes@),
{
    String::from_utf8_lossy(bytes).into_owned()
}

/// The character that starts an entity or character reference.
pub const AMPERSAND: char = '&';

/// What `quick_xml::escape::unescape` makes of `raw`: the text with its
/// entity and character references replaced, or none where a reference is
/// not recognised or not terminated.
pub uninterp spec fn xml_unescaped(raw: Seq<char>) -> Option<Seq<char>>;

/// Calls `quick_xml::escape::unescape`, named `xml_unescaped`; a text without
/// `&` comes back as it is.
#[verifier::external_body]
fn unescape_text(raw: &str) -> (r: Option<String>)
    ensures
        match xml_unescaped(raw@) {
            Some(t) => r matches Some(s) && s@ == t,
            None => r is None,
        },
        match r {
            Some(s) => s@ == raw@ || raw@.contains(AMPERSAND),
            None => raw@.contains(AMPERSAND),
        },
{
    unescape(raw).ok().map(|t| t.into_owned())
}

/// The text that the bytes of a text event stand for: decoded as
/// `String::from_utf8_lossy` does, then unescaped as quick_xml does; left
/// escaped where quick_xml cannot unescape it.
pub open spec fn text_decoded(bytes: Seq<u8>) -> Seq<char> {
    match xml_unescaped(lossy_utf8(bytes)) {
        Some(t) => t,
        None => lossy_utf8(bytes),
    }
}

/// The text that the bytes of a text event stand for.
pub(crate) fn decode_text(bytes: &Vec<u8>) -> (r: String)
    ensures
        r@ == text_decoded(bytes@),
{
    let raw = text_of_bytes(bytes);
    match unescape_text(raw.as_str()) {
        Some(t) => t,
        None => raw,
    }
}

} // verus!
