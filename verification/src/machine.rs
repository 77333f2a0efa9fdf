//! The indentation state machine.
//!
//! The machine remembers what it wrote last and how deep the current element
//! is nested. For each event it decides whether the event's markup goes on a
//! line of its own or stays next to what was written before it.

use vstd::prelude::*;
use crate::event::{Event, EventKind, EventView};
use crate::layout::{lemma_line_break_is_newline, line_start, start_line};

verus! {

/// What the machine wrote last.
#[derive(Clone, Copy, Debug, PartialEq, Eq, Structural)]
pub enum FormatterState {
    /// Nothing yet, or only declarations.
    Init,
    /// An opening tag.
    AfterOpen,
    /// Text right after an opening tag.
    AfterText,
    /// A closing tag.
    AfterClose,
    /// A self-closing tag.
    AfterInline,
    /// Something the layout rules do not cover.
    Unknown,
}

/// Where the markup of an event goes.
pub enum Placement {
    /// Nowhere: the event is not written.
    Skipped,
    /// Right after what was written before it.
    Inline,
    /// On a new line, indented.
    OwnLine,
}

/// The mathematical state of a [`Formatter`]: what it wrote last, and the
/// number of elements that are open.
pub struct Machine {
    pub state: FormatterState,
    pub depth: nat,
}

/// Whether the last thing written was a tag.
pub open spec fn after_tag(state: FormatterState) -> bool {
    state == FormatterState::AfterOpen || state == FormatterState::AfterClose || state
        == FormatterState::AfterInline
}

/// Whether the last thing written was part of an element: a tag, or the text
/// of a leaf element.
pub open spec fn in_element(state: FormatterState) -> bool {
    after_tag(state) || state == FormatterState::AfterText
}

/// The state that follows when an event of kind `kind` arrives in `state`.
pub open spec fn successor(state: FormatterState, kind: EventKind) -> FormatterState {
    match kind {
        EventKind::EndOfInput | EventKind::Comment => state,
        EventKind::Open => FormatterState::AfterOpen,
        EventKind::Close => if in_element(state) {
            FormatterState::AfterClose
        } else {
            FormatterState::Unknown
        },
        EventKind::SelfClosing => if after_tag(state) {
            FormatterState::AfterInline
        } else {
            FormatterState::Unknown
        },
        EventKind::Text => if state == FormatterState::AfterOpen {
            FormatterState::AfterText
        } else {
            FormatterState::Unknown
        },
        EventKind::Declaration => if state == FormatterState::Init {
            FormatterState::Init
        } else {
            FormatterState::Unknown
        },
        EventKind::CData | EventKind::Instruction | EventKind::DocType => FormatterState::Unknown,
    }
}

/// Where the markup of an event of kind `kind` goes when it arrives in
/// `state`.
pub open spec fn placement(state: FormatterState, kind: EventKind) -> Placement {
    match kind {
        EventKind::EndOfInput | EventKind::Comment => Placement::Skipped,
        EventKind::Open => Placement::OwnLine,
        EventKind::SelfClosing => if after_tag(state) {
            Placement::OwnLine
        } else {
            Placement::Inline
        },
        EventKind::Close => if state == FormatterState::AfterClose || state
            == FormatterState::AfterInline {
            Placement::OwnLine
        } else {
            Placement::Inline
        },
        _ => Placement::Inline,
    }
}

/// Whether an event of kind `kind` that arrives in `state` leaves an element.
pub open spec fn leaves_element(state: FormatterState, kind: EventKind) -> bool {
    kind == EventKind::Close && in_element(state)
}

impl Machine {
    /// The machine before any event.
    pub open spec fn init() -> Machine {
        Machine { state: FormatterState::Init, depth: 0 }
    }

    /// Whether the machine can take an event of kind `kind`: it cannot leave
    /// an element when none is open.
    pub open spec fn accepts(self, kind: EventKind) -> bool {
        leaves_element(self.state, kind) ==> self.depth > 0
    }

    /// The depth after an event of kind `kind`: an opening tag enters an
    /// element, a closing tag that the layout rules cover leaves one.
    pub open spec fn next_depth(self, kind: EventKind) -> nat {
        if kind == EventKind::Open {
            self.depth + 1
        } else if leaves_element(self.state, kind) {
            (self.depth - 1) as nat
        } else {
            self.depth
        }
    }

    /// The machine after an event of kind `kind`.
    pub open spec fn step(self, kind: EventKind) -> Machine {
        Machine { state: successor(self.state, kind), depth: self.next_depth(kind) }
    }

    /// The depth at which the line of an event of kind `kind` is indented: a
    /// closing tag stands at the depth of its opening tag, any other tag at
    /// the depth it arrives in.
    pub open spec fn line_depth(self, kind: EventKind) -> nat {
        if kind == EventKind::Close {
            (self.depth - 1) as nat
        } else {
            self.depth
        }
    }

    /// What the machine writes for `event`.
    pub open spec fn emitted(self, event: EventView) -> Seq<u8> {
        match placement(self.state, event.kind) {
            Placement::Skipped => Seq::empty(),
            Placement::Inline => event.markup(),
            Placement::OwnLine => line_start(self.line_depth(event.kind)) + event.markup(),
        }
    }
}

/// The indentation state machine together with the sink it writes to.
pub struct Formatter {
    state: FormatterState,
    depth: usize,
    out: Vec<u8>,
}

impl View for Formatter {
    type V = Machine;

    closed spec fn view(&self) -> Machine {
        Machine { state: self.state, depth: self.depth as nat }
    }
}

impl Formatter {
    /// The invariant of a formatter: every open element has left at least
    /// one byte in the sink, so the depth never outgrows what a sink can
    /// hold.
    pub closed spec fn wf(&self) -> bool {
        self.depth <= self.out@.len()
    }

    /// Everything written so far.
    pub closed spec fn written(&self) -> Seq<u8> {
        self.out@
    }

    /// A machine that has seen no event and an empty sink.
    pub fn new() -> (formatter: Formatter)
        ensures
            formatter.wf(),
            formatter@ == Machine::init(),
            formatter.written() == Seq::<u8>::empty(),
    {
        Formatter { state: FormatterState::Init, depth: 0, out: Vec::new() }
    }

    /// What the machine wrote last.
    pub fn state(&self) -> (state: FormatterState)
        ensures
            state == self@.state,
    {
        self.state
    }

    /// The number of elements that are open.
    pub fn depth(&self) -> (depth: usize)
        ensures
            depth == self@.depth,
    {
        self.depth
    }

    /// Whether the machine can take an event of kind `kind`.
    pub fn accepts(&self, kind: EventKind) -> (ok: bool)
        ensures
            ok == self@.accepts(kind),
    {
        match (self.state, kind) {
            (FormatterState::AfterOpen, EventKind::Close)
            | (FormatterState::AfterText, EventKind::Close)
            | (FormatterState::AfterClose, EventKind::Close)
            | (FormatterState::AfterInline, EventKind::Close) => self.depth > 0,
            _ => true,
        }
    }

    /// Takes one event: writes what the layout rules ask for and moves to
    /// the next state.
    pub fn handle(&mut self, event: &Event)
        requires
            old(self).wf(),
            old(self)@.accepts(event@.kind),
        ensures
            final(self).wf(),
            final(self)@ == old(self)@.step(event@.kind),
            final(self).written() == old(self).written() + old(self)@.emitted(event@),
    {
        self.state = match (self.state, event.kind) {
            (state, EventKind::EndOfInput) => state,
            (state, EventKind::Comment) => state,
            (FormatterState::Init, EventKind::Declaration) => {
                event.write_markup(&mut self.out);
                FormatterState::Init
            },
            (_, EventKind::Open) => {
                start_line(&mut self.out, self.depth);
                event.write_markup(&mut self.out);
                proof {
                    lemma_line_break_is_newline();
                    assert(self.out@.len() == self.out.len());
                }
                self.depth = self.depth + 1;
                FormatterState::AfterOpen
            },
            (FormatterState::AfterOpen, EventKind::Text) => {
                event.write_markup(&mut self.out);
                FormatterState::AfterText
            },
            (FormatterState::AfterText, EventKind::Close) => {
                event.write_markup(&mut self.out);
                self.depth = self.depth - 1;
                FormatterState::AfterClose
            },
            (FormatterState::AfterClose, EventKind::Close) => {
                self.depth = self.depth - 1;
                start_line(&mut self.out, self.depth);
                event.write_markup(&mut self.out);
                FormatterState::AfterClose
            },
            (FormatterState::AfterOpen, EventKind::SelfClosing) => {
                start_line(&mut self.out, self.depth);
                event.write_markup(&mut self.out);
                FormatterState::AfterInline
            },
            (FormatterState::AfterOpen, EventKind::Close) => {
                self.depth = self.depth - 1;
                event.write_markup(&mut self.out);
                FormatterState::AfterClose
            },
            (FormatterState::AfterClose, EventKind::SelfClosing) => {
                start_line(&mut self.out, self.depth);
                event.write_markup(&mut self.out);
                FormatterState::AfterInline
            },
            (FormatterState::AfterInline, EventKind::Close) => {
                self.depth = self.depth - 1;
                start_line(&mut self.out, self.depth);
                event.write_markup(&mut self.out);
                FormatterState::AfterClose
            },
            (FormatterState::AfterInline, EventKind::SelfClosing) => {
                start_line(&mut self.out, self.depth);
                event.write_markup(&mut self.out);
                FormatterState::AfterInline
            },
            (_, _) => {
                event.write_markup(&mut self.out);
                FormatterState::Unknown
            },
        };
    }

    /// Ends the formatting and hands out everything that was written.
    pub fn finish(self) -> (out: Vec<u8>)
        ensures
            out@ == self.written(),
    {
        self.out
    }
}

} // verus!
