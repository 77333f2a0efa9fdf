//! Lexical events and the markup they stand for.

use vstd::prelude::*;
use vstd::string::StringSliceAdditionalSpecFns;

verus! {

/// What kind of lexical unit an event is.
#[derive(Clone, Copy, Debug, PartialEq, Eq, Structural)]
pub enum EventKind {
    /// The XML declaration, `<?xml ...?>`. The payload is what stands
    /// between `<?` and `?>`.
    Declaration,
    /// An opening tag, `<tag ...>`. The payload is the name and the
    /// attributes.
    Open,
    /// A closing tag, `</tag>`. The payload is the name.
    Close,
    /// A self-closing tag, `<tag ... />`. The payload is the name and the
    /// attributes.
    SelfClosing,
    /// Character data between tags. The payload is the text, escaped as it
    /// is in the document.
    Text,
    /// A comment, `<!-- ... -->`. The payload is what stands between `<!--`
    /// and `-->`.
    Comment,
    /// A character data section, `<![CDATA[ ... ]]>`. The payload is what
    /// is written between `<![CDATA[` and `]]>`.
    CData,
    /// A processing instruction, `<? ... ?>`. The payload is what stands
    /// between `<?` and `?>`.
    Instruction,
    /// A document type declaration, `<!DOCTYPE ...>`. The payload is what
    /// follows the word `DOCTYPE`, with the white space that parts the two.
    DocType,
    /// The end of the document. It has no markup.
    EndOfInput,
}

/// One lexical event: its kind, and as its payload the bytes that stand
/// between the delimiters of its markup.
#[derive(Clone, Debug, PartialEq, Eq)]
pub struct Event {
    pub kind: EventKind,
    pub payload: Vec<u8>,
}

/// The mathematical value of an [`Event`].
pub struct EventView {
    pub kind: EventKind,
    pub payload: Seq<u8>,
}

impl View for Event {
    type V = EventView;

    open spec fn view(&self) -> EventView {
        EventView { kind: self.kind, payload: self.payload@ }
    }
}

/// The delimiter that begins the markup of an event of this kind.
pub open spec fn opening(kind: EventKind) -> Seq<u8> {
    match kind {
        EventKind::Declaration | EventKind::Instruction => "<?".spec_bytes(),
        EventKind::Open | EventKind::SelfClosing => "<".spec_bytes(),
        EventKind::Close => "</".spec_bytes(),
        EventKind::Comment => "<!--".spec_bytes(),
        EventKind::CData => "<![CDATA[".spec_bytes(),
        EventKind::DocType => "<!DOCTYPE".spec_bytes(),
        EventKind::Text | EventKind::EndOfInput => Seq::empty(),
    }
}

/// The delimiter that ends the markup of an event of this kind.
pub open spec fn closing(kind: EventKind) -> Seq<u8> {
    match kind {
        EventKind::Declaration | EventKind::Instruction => "?>".spec_bytes(),
        EventKind::Open | EventKind::Close | EventKind::DocType => ">".spec_bytes(),
        EventKind::SelfClosing => "/>".spec_bytes(),
        EventKind::Comment => "-->".spec_bytes(),
        EventKind::CData => "]]>".spec_bytes(),
        EventKind::Text | EventKind::EndOfInput => Seq::empty(),
    }
}

impl EventView {
    /// The event written out as XML: its payload between the delimiters of
    /// its kind. The end of input stands for no text at all.
    pub open spec fn markup(self) -> Seq<u8> {
        if self.kind == EventKind::EndOfInput {
            Seq::empty()
        } else {
            opening(self.kind) + self.payload + closing(self.kind)
        }
    }
}

/// The bytes of [`opening`].
fn opening_bytes(kind: EventKind) -> (bytes: &'static [u8])
    ensures
        bytes@ == opening(kind),
{
    match kind {
        EventKind::Declaration | EventKind::Instruction => "<?".as_bytes(),
        EventKind::Open | EventKind::SelfClosing => "<".as_bytes(),
        EventKind::Close => "</".as_bytes(),
        EventKind::Comment => "<!--".as_bytes(),
        EventKind::CData => "<![CDATA[".as_bytes(),
        EventKind::DocType => "<!DOCTYPE".as_bytes(),
        EventKind::Text | EventKind::EndOfInput => {
            proof {
                reveal_strlit("");
            }
            "".as_bytes()
        },
    }
}

/// The bytes of [`closing`].
fn closing_bytes(kind: EventKind) -> (bytes: &'static [u8])
    ensures
        bytes@ == closing(kind),
{
    match kind {
        EventKind::Declaration | EventKind::Instruction => "?>".as_bytes(),
        EventKind::Open | EventKind::Close | EventKind::DocType => ">".as_bytes(),
        EventKind::SelfClosing => "/>".as_bytes(),
        EventKind::Comment => "-->".as_bytes(),
        EventKind::CData => "]]>".as_bytes(),
        EventKind::Text | EventKind::EndOfInput => {
            proof {
                reveal_strlit("");
            }
            "".as_bytes()
        },
    }
}

impl Event {
    /// Appends the markup of this event to `out`.
    pub fn write_markup(&self, out: &mut Vec<u8>)
        ensures
            final(out)@ == old(out)@ + self@.markup(),
    {
        if self.kind != EventKind::EndOfInput {
            out.extend_from_slice(opening_bytes(self.kind));
            out.extend_from_slice(self.payload.as_slice());
            out.extend_from_slice(closing_bytes(self.kind));
        }
    }
}

} // verus!
