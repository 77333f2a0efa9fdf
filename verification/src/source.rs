//! The event source: `quick_xml`'s pull reader over a document held in
//! memory.
//!
//! Nothing in this module is proved. It states what the reader is taken to
//! do, and the rest of the library is verified against that.

use vstd::prelude::*;
use crate::event::{Event, EventKind, EventView};
use quick_xml::events::Event as XmlEvent;
use quick_xml::Reader;

verus! {

/// What one pull on the event source gives: an event, or the failure of the
/// source on input that is not well-formed.
pub enum Lexeme {
    Event(EventView),
    Failure,
}

impl Lexeme {
    /// Whether nothing is pulled after this: the end of the input, or a
    /// failure.
    pub open spec fn ends_stream(self) -> bool {
        match self {
            Lexeme::Event(event) => event.kind == EventKind::EndOfInput,
            Lexeme::Failure => true,
        }
    }
}

/// What a pull returned, as a lexeme.
pub open spec fn pulled(r: Result<Event, quick_xml::Error>) -> Lexeme {
    match r {
        Ok(event) => Lexeme::Event(event@),
        Err(_) => Lexeme::Failure,
    }
}

/// `quick_xml::Error`: why the reader failed. The library only hands it on.
#[verifier::external_type_specification]
#[verifier::external_body]
pub struct ExError(quick_xml::Error);

/// A `quick_xml::Reader` over the bytes of a string slice. The type
/// parameter of `Reader` is bound by `std::io::BufRead`, a trait that the
/// verifier does not know, so the reader is held behind this struct and is
/// opaque to the proofs; what it will still give is [`pending`].
#[verifier::external_body]
pub struct EventSource<'a> {
    reader: Reader<&'a [u8]>,
}

/// The lexemes that `quick_xml` reads from `text`, pull by pull, when it
/// trims the white space around character data: every event up to the end
/// of the input or the first failure, and that end or failure as the last
/// lexeme.
pub uninterp spec fn events_of(text: Seq<char>) -> Seq<Lexeme>;

/// The lexemes that `source` has yet to give, pull by pull, up to and with
/// the end of the input or the first failure.
pub uninterp spec fn pending(source: EventSource) -> Seq<Lexeme>;

/// `Reader::from_str` followed by `Reader::trim_text(true)`: a reader at the
/// start of `input` that trims character data and leaves out what is empty
/// after trimming. What it has yet to give is the lexemes of `input`.
#[verifier::external_body]
pub(crate) fn reader_over(input: &str) -> (source: EventSource)
    ensures
        pending(source) == events_of(input@),
{
    let mut reader = Reader::from_str(input);
    reader.trim_text(true);
    EventSource { reader }
}

/// `Reader::read_event`, the event copied out of the read buffer: the kind
/// by the variant, the payload as the bytes that the event holds. The pull
/// gives the first pending lexeme, and there always is one. Unless that
/// lexeme ends the stream, the lexemes after it are what is pending next.
#[verifier::external_body]
pub(crate) fn read_event(source: &mut EventSource) -> (r: Result<Event, quick_xml::Error>)
    ensures
        pending(*old(source)).len() > 0,
        pulled(r) == pending(*old(source)).first(),
        !pulled(r).ends_stream() ==> pending(*final(source)) == pending(*old(source)).skip(1),
{
    let mut buf = Vec::new();
    let event = source.reader.read_event(&mut buf)?;
    let kind = match event {
        XmlEvent::Decl(_) => EventKind::Declaration,
        XmlEvent::Start(_) => EventKind::Open,
        XmlEvent::End(_) => EventKind::Close,
        XmlEvent::Empty(_) => EventKind::SelfClosing,
        XmlEvent::Text(_) => EventKind::Text,
        XmlEvent::Comment(_) => EventKind::Comment,
        XmlEvent::CData(_) => EventKind::CData,
        XmlEvent::PI(_) => EventKind::Instruction,
        XmlEvent::DocType(_) => EventKind::DocType,
        XmlEvent::Eof => EventKind::EndOfInput,
    };
    Ok(Event { kind, payload: event.to_vec() })
}

} // verus!
