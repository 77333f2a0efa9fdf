//! Formatting a whole document.

use vstd::prelude::*;
use vstd::utf8::{decode_utf8, valid_utf8};
use crate::event::{Event, EventKind};
use crate::machine::{Formatter, Machine};
use crate::source::{events_of, pending, read_event, reader_over, Lexeme};

verus! {

/// Why a document could not be formatted.
#[derive(Clone, Copy, Debug, PartialEq, Eq)]
pub enum PrettifyError {
    /// The input is not well-formed XML: the event source failed on it, or
    /// a closing tag came where no element was open.
    QuickXMLError,
    /// The formatted bytes are not valid UTF-8.
    Save,
}

/// Every failure of the event source is a tokenize error.
impl From<quick_xml::Error> for PrettifyError {
    fn from(_failure: quick_xml::Error) -> (err: PrettifyError) {
        PrettifyError::QuickXMLError
    }
}

impl vstd::std_specs::convert::FromSpecImpl<quick_xml::Error> for PrettifyError {
    open spec fn obeys_from_spec() -> bool {
        true
    }

    open spec fn from_spec(_failure: quick_xml::Error) -> PrettifyError {
        PrettifyError::QuickXMLError
    }
}

/// `head`, then the bytes of `rest`, if there are any.
pub open spec fn prefixed(head: Seq<u8>, rest: Option<Seq<u8>>) -> Option<Seq<u8>> {
    match rest {
        Some(tail) => Some(head + tail),
        None => None,
    }
}

/// What `machine` writes for `stream`, lexeme by lexeme, up to the end of
/// the input; `None` where the stream fails first, or holds a closing tag
/// that the machine cannot take.
pub open spec fn render(machine: Machine, stream: Seq<Lexeme>) -> Option<Seq<u8>>
    decreases stream.len(),
{
    if stream.len() == 0 {
        Some(Seq::empty())
    } else {
        match stream.first() {
            Lexeme::Failure => None,
            Lexeme::Event(event) => if event.kind == EventKind::EndOfInput {
                Some(Seq::empty())
            } else if !machine.accepts(event.kind) {
                None
            } else {
                prefixed(machine.emitted(event), render(machine.step(event.kind), stream.skip(1)))
            },
        }
    }
}

/// The text that `bytes` encode in UTF-8, or the error of bytes that encode
/// none.
pub open spec fn decoded(bytes: Seq<u8>) -> Result<Seq<char>, PrettifyError> {
    if valid_utf8(bytes) {
        Ok(decode_utf8(bytes))
    } else {
        Err(PrettifyError::Save)
    }
}

/// The formatted text of a document that reads as `stream`, or why there is
/// none.
pub open spec fn prettified(stream: Seq<Lexeme>) -> Result<Seq<char>, PrettifyError> {
    match render(Machine::init(), stream) {
        None => Err(PrettifyError::QuickXMLError),
        Some(bytes) => decoded(bytes),
    }
}

/// The stream in which every pull gives the next of `events`.
pub open spec fn lexemes(events: Seq<Event>) -> Seq<Lexeme> {
    Seq::new(events.len(), |i: int| Lexeme::Event(events[i]@))
}

/// A result of formatting with its text taken as a sequence of characters.
pub open spec fn outcome(result: Result<String, PrettifyError>) -> Result<Seq<char>, PrettifyError> {
    match result {
        Ok(text) => Ok(text@),
        Err(e) => Err(e),
    }
}

/// `String::from_utf8`: the string whose UTF-8 encoding is `bytes`, if
/// `bytes` is the encoding of one.
#[verifier::external_body]
fn text_from(bytes: Vec<u8>) -> (text: Option<String>)
    ensures
        text is Some <==> valid_utf8(bytes@),
        text is Some ==> text.unwrap()@ == decode_utf8(bytes@),
{
    match String::from_utf8(bytes) {
        Ok(text) => Some(text),
        Err(_) => None,
    }
}

/// Turns the bytes that a formatter wrote into text.
fn finished(bytes: Vec<u8>) -> (result: Result<String, PrettifyError>)
    ensures
        outcome(result) == decoded(bytes@),
{
    match text_from(bytes) {
        Some(text) => Ok(text),
        None => Err(PrettifyError::Save),
    }
}

/// Formats a document that is given as its events: the events up to the
/// first end of input, or all of them where there is none.
pub fn format_events(events: &[Event]) -> (result: Result<String, PrettifyError>)
    ensures
        outcome(result) == prettified(lexemes(events@)),
{
    let ghost stream = lexemes(events@);
    let mut formatter = Formatter::new();
    let mut i: usize = 0;
    assert(stream.skip(0) =~= stream);
    while i < events.len()
        invariant_except_break
            i <= events.len(),
            render(Machine::init(), stream) == prefixed(
                formatter.written(),
                render(formatter@, stream.skip(i as int)),
            ),
        invariant
            formatter.wf(),
            stream == lexemes(events@),
        ensures
            render(Machine::init(), stream) == Some(formatter.written()),
        decreases events.len() - i,
    {
        let event = &events[i];
        if event.kind == EventKind::EndOfInput {
            break;
        }
        if !formatter.accepts(event.kind) {
            return Err(PrettifyError::QuickXMLError);
        }
        assert(stream.skip(i as int).skip(1) =~= stream.skip(i + 1));
        formatter.handle(event);
        i = i + 1;
    }
    finished(formatter.finish())
}

/// Formats an XML document: every element on a line of its own, two spaces
/// deeper than its parent, text next to the tag that encloses it, comments
/// dropped, a leading declaration kept as it is. The document is read event
/// by event, and each event is written before the next is read.
pub fn prettify_xml(input: &str) -> (result: Result<String, PrettifyError>)
    ensures
        outcome(result) == prettified(events_of(input@)),
{
    let mut source = reader_over(input);
    let mut formatter = Formatter::new();
    loop
        invariant_except_break
            render(Machine::init(), events_of(input@)) == prefixed(
                formatter.written(),
                render(formatter@, pending(source)),
            ),
        invariant
            formatter.wf(),
        ensures
            render(Machine::init(), events_of(input@)) == Some(formatter.written()),
        decreases pending(source).len(),
    {
        let event = match read_event(&mut source) {
            Ok(event) => event,
            Err(failure) => {
                return Err(PrettifyError::from(failure));
            },
        };
        if event.kind == EventKind::EndOfInput {
            break;
        }
        if !formatter.accepts(event.kind) {
            return Err(PrettifyError::QuickXMLError);
        }
        formatter.handle(&event);
    }
    finished(formatter.finish())
}

} // verus!
