//! The XML event stream of a message, read with `quick_xml`.

use quick_xml::events::Event;
use quick_xml::Reader;
use vstd::prelude::*;

verus! {

/// A `quick_xml` reader over a document held in memory.
#[verifier::external_body]
pub struct XmlReader<'a> {
    inner: Reader<&'a [u8]>,
}

/// One event of the stream, as plain values: a start tag carries its raw
/// name and its whole content unescaped and decoded (`None` where that
/// failed); a text carries its unescaped and decoded content.
pub enum XmlEvent {
    Start { name: Vec<u8>, text: Option<String> },
    Text { text: Option<String> },
    Eof,
    Failed,
    Other,
}

/// The mathematical value of an [`XmlEvent`].
pub enum XmlEventView {
    Start { name: Seq<u8>, text: Option<Seq<char>> },
    Text { text: Option<Seq<char>> },
    Eof,
    Failed,
    Other,
}

pub open spec fn opt_string_view(o: Option<String>) -> Option<Seq<char>> {
    match o {
        Some(s) => Some(s@),
        None => None,
    }
}

impl View for XmlEvent {
    type V = XmlEventView;

    open spec fn view(&self) -> XmlEventView {
        match self {
            XmlEvent::Start { name, text } => XmlEventView::Start {
                name: name@,
                text: opt_string_view(*text),
            },
            XmlEvent::Text { text } => XmlEventView::Text { text: opt_string_view(*text) },
            XmlEvent::Eof => XmlEventView::Eof,
            XmlEvent::Failed => XmlEventView::Failed,
            XmlEvent::Other => XmlEventView::Other,
        }
    }
}

/// The events that `quick_xml` reports for the document `input`, with text
/// trimming set to `trim`, each converted as [`XmlEvent`] describes, up to
/// and including the first end of input or error.
pub uninterp spec fn xml_events(input: Seq<char>, trim: bool) -> Seq<XmlEventView>;

/// The document a reader reads.
pub uninterp spec fn reader_source(reader: XmlReader<'_>) -> Seq<char>;

/// Whether a reader trims its text events.
pub uninterp spec fn reader_trims(reader: XmlReader<'_>) -> bool;

/// The events a reader has still to report, up to and including the
/// first end of input or error.
pub uninterp spec fn pending_events(reader: XmlReader<'_>) -> Seq<XmlEventView>;

/// `quick_xml::Reader::from_str`: a reader over `s` that does not trim text
/// and has reported nothing yet.
#[verifier::external_body]
pub(crate) fn reader_from_str<'a>(s: &'a str) -> (r: XmlReader<'a>)
    ensures
        reader_source(r) == s@,
        !reader_trims(r),
        pending_events(r) == xml_events(s@, false),
{
    XmlReader { inner: Reader::from_str(s) }
}

/// `quick_xml::Reader::trim_text`: sets whether text events are trimmed. On
/// a reader that has reported nothing yet, its events are from then on
/// those of its document with the new setting.
#[verifier::external_body]
pub(crate) fn set_trim_text(reader: &mut XmlReader<'_>, val: bool)
    ensures
        reader_source(*final(reader)) == reader_source(*old(reader)),
        reader_trims(*final(reader)) == val,
        pending_events(*old(reader)) == xml_events(reader_source(*old(reader)), reader_trims(*old(reader)))
            ==> pending_events(*final(reader)) == xml_events(reader_source(*old(reader)), val),
{
    reader.inner.trim_text(val);
}

/// `quick_xml::Reader::read_event`, with the event converted to plain
/// values (the content of start tags and texts through
/// `unescape_and_decode`). It reports the next pending event; once the
/// stream has ended or failed, the reader reports end of input.
#[verifier::external_body]
pub(crate) fn read_event(reader: &mut XmlReader<'_>) -> (ev: XmlEvent)
    ensures
        reader_source(*final(reader)) == reader_source(*old(reader)),
        reader_trims(*final(reader)) == reader_trims(*old(reader)),
        pending_events(*old(reader)).len() > 0 ==> ev@ == pending_events(*old(reader))[0]
            && pending_events(*final(reader)) == pending_events(*old(reader)).drop_first(),
        pending_events(*old(reader)).len() == 0 ==> ev@ == XmlEventView::Eof
            && pending_events(*final(reader)) == pending_events(*old(reader)),
{
    let mut buf = Vec::new();
    match reader.inner.read_event(&mut buf) {
        Ok(Event::Start(e)) => XmlEvent::Start {
            name: e.name().to_vec(),
            text: e.unescape_and_decode(&reader.inner).ok(),
        },
        Ok(Event::Text(e)) => XmlEvent::Text { text: e.unescape_and_decode(&reader.inner).ok() },
        Ok(Event::Eof) => XmlEvent::Eof,
        Err(_) => XmlEvent::Failed,
        Ok(_) => XmlEvent::Other,
    }
}

} // verus!
