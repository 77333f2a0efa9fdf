//! What holds of every formatting.

use vstd::prelude::*;
use vstd::string::StringSliceAdditionalSpecFns;
use crate::event::{EventKind, EventView};
use crate::format_xml::{prefixed, prettified, render, PrettifyError};
use crate::machine::{leaves_element, FormatterState, Machine};
use crate::source::Lexeme;

verus! {

/// Whether a lexeme is a comment.
pub open spec fn is_comment(lexeme: Lexeme) -> bool {
    lexeme matches Lexeme::Event(event) && event.kind == EventKind::Comment
}

/// The stream with its comments taken out.
pub open spec fn without_comments(stream: Seq<Lexeme>) -> Seq<Lexeme> {
    stream.filter(|lexeme: Lexeme| !is_comment(lexeme))
}

/// Comments leave no trace: a stream is formatted exactly as the same stream
/// without its comments is, from any state of the machine.
pub proof fn lemma_comments_are_elided(machine: Machine, stream: Seq<Lexeme>)
    ensures
        render(machine, stream) == render(machine, without_comments(stream)),
        prettified(stream) == prettified(without_comments(stream)),
{
    lemma_render_skips_comments(machine, stream);
    lemma_render_skips_comments(Machine::init(), stream);
}

/// From any state, the machine writes for a stream what it writes for the
/// stream without its comments.
proof fn lemma_render_skips_comments(machine: Machine, stream: Seq<Lexeme>)
    ensures
        render(machine, stream) == render(machine, without_comments(stream)),
    decreases stream.len(),
{
    let kept = |lexeme: Lexeme| !is_comment(lexeme);
    if stream.len() == 0 {
        assert(stream.filter(kept) =~= stream);
    } else {
        let first = stream.first();
        let rest = stream.skip(1);
        assert(stream =~= seq![first] + rest);
        assert(seq![first].filter(kept) =~= if kept(first) {
            seq![first]
        } else {
            Seq::empty()
        }) by {
            reveal_with_fuel(Seq::filter, 2);
        }
        if is_comment(first) {
            lemma_render_skips_comments(machine, rest);
        } else if let Lexeme::Event(event) = first {
            assert((seq![first] + rest.filter(kept)).skip(1) =~= rest.filter(kept));
            lemma_render_skips_comments(machine.step(event.kind), rest);
        }
    }
}

/// A declaration that comes before any element is copied out as it stands,
/// between `<?` and `?>`, with no line break or indent, and what follows is
/// formatted as if the declaration were not there.
pub proof fn lemma_leading_declaration_is_kept(
    machine: Machine,
    declaration: EventView,
    rest: Seq<Lexeme>,
)
    requires
        machine.state == FormatterState::Init,
        declaration.kind == EventKind::Declaration,
    ensures
        render(machine, seq![Lexeme::Event(declaration)] + rest) == prefixed(
            "<?".spec_bytes() + declaration.payload + "?>".spec_bytes(),
            render(machine, rest),
        ),
{
    let stream = seq![Lexeme::Event(declaration)] + rest;
    assert(stream.skip(1) =~= rest);
}

/// Whether the first lexeme of `stream` that ends it is a failure of the
/// event source.
pub open spec fn fails(stream: Seq<Lexeme>) -> bool {
    exists|at: int|
        0 <= at < stream.len() && stream[at] == Lexeme::Failure && forall|before: int|
            0 <= before < at ==> !(#[trigger] stream[before]).ends_stream()
}

/// A failure of the event source ends the formatting with a tokenize error,
/// and nothing of what was written before it is handed out.
pub proof fn lemma_failure_gives_no_output(stream: Seq<Lexeme>)
    requires
        fails(stream),
    ensures
        prettified(stream) == Err::<Seq<char>, PrettifyError>(PrettifyError::QuickXMLError),
{
    let at = choose|at: int|
        0 <= at < stream.len() && stream[at] == Lexeme::Failure && forall|before: int|
            0 <= before < at ==> !(#[trigger] stream[before]).ends_stream();
    lemma_failure_stops_rendering(Machine::init(), stream, at);
}

/// A failure at `at`, with nothing before it that ends the stream, leaves
/// no rendering, whatever state the machine starts in.
proof fn lemma_failure_stops_rendering(machine: Machine, stream: Seq<Lexeme>, at: int)
    requires
        0 <= at < stream.len(),
        stream[at] == Lexeme::Failure,
        forall|before: int| 0 <= before < at ==> !(#[trigger] stream[before]).ends_stream(),
    ensures
        render(machine, stream) is None,
    decreases at,
{
    if at > 0 {
        if let Lexeme::Event(event) = stream.first() {
            if machine.accepts(event.kind) {
                lemma_failure_stops_rendering(machine.step(event.kind), stream.skip(1), at - 1);
            }
        }
    }
}

/// By how much an event of kind `kind` that arrives in `state` changes the
/// depth.
pub open spec fn depth_change(state: FormatterState, kind: EventKind) -> int {
    if kind == EventKind::Open {
        1
    } else if leaves_element(state, kind) {
        -1
    } else {
        0
    }
}

/// The machine after the events of `stream`, up to the end of the stream or
/// the first lexeme that the machine does not take.
pub open spec fn settled(machine: Machine, stream: Seq<Lexeme>) -> Machine
    decreases stream.len(),
{
    if stream.len() == 0 {
        machine
    } else {
        match stream.first() {
            Lexeme::Failure => machine,
            Lexeme::Event(event) => if event.kind == EventKind::EndOfInput || !machine.accepts(
                event.kind,
            ) {
                machine
            } else {
                settled(machine.step(event.kind), stream.skip(1))
            },
        }
    }
}

/// The opening tags less the closing tags among the events of `stream`, up
/// to the end of the stream.
pub open spec fn nesting(stream: Seq<Lexeme>) -> int
    decreases stream.len(),
{
    if stream.len() == 0 {
        0
    } else {
        match stream.first() {
            Lexeme::Failure => 0,
            Lexeme::Event(event) => if event.kind == EventKind::EndOfInput {
                0
            } else if event.kind == EventKind::Open {
                nesting(stream.skip(1)) + 1
            } else if event.kind == EventKind::Close {
                nesting(stream.skip(1)) - 1
            } else {
                nesting(stream.skip(1))
            },
        }
    }
}

/// Whether every closing tag of `stream` comes where it leaves an element:
/// after a tag, or after the text of a leaf.
pub open spec fn closes_leave(machine: Machine, stream: Seq<Lexeme>) -> bool
    decreases stream.len(),
{
    if stream.len() == 0 {
        true
    } else {
        match stream.first() {
            Lexeme::Failure => true,
            Lexeme::Event(event) => if event.kind == EventKind::EndOfInput || !machine.accepts(
                event.kind,
            ) {
                true
            } else {
                &&& event.kind == EventKind::Close ==> leaves_element(machine.state, event.kind)
                &&& closes_leave(machine.step(event.kind), stream.skip(1))
            },
        }
    }
}

/// The depth moves by one at most, and an event that the machine takes
/// never moves it below zero.
pub proof fn lemma_depth_stays_natural(machine: Machine, kind: EventKind)
    requires
        machine.accepts(kind),
    ensures
        machine.step(kind).depth == machine.depth + depth_change(machine.state, kind),
        machine.depth + depth_change(machine.state, kind) >= 0,
{
}

/// The depth is the nesting. Where a stream is formatted and every closing
/// tag in it leaves an element, the depth at each point of the formatting is
/// the depth at the start, plus the opening tags, less the closing tags seen
/// up to that point, and so never negative. At the end of a document that
/// closes what it opens the depth is therefore back where it started.
pub proof fn lemma_depth_is_nesting(machine: Machine, stream: Seq<Lexeme>)
    requires
        render(machine, stream) is Some,
        closes_leave(machine, stream),
    ensures
        settled(machine, stream).depth == machine.depth + nesting(stream),
        forall|seen: int|
            0 <= seen <= stream.len() ==> settled(machine, #[trigger] stream.take(seen)).depth
                == machine.depth + nesting(stream.take(seen)),
{
    lemma_depth_of_run(machine, stream);
    assert forall|seen: int| 0 <= seen <= stream.len() implies settled(
        machine,
        #[trigger] stream.take(seen),
    ).depth == machine.depth + nesting(stream.take(seen)) by {
        lemma_run_of_prefix(machine, stream, seen);
        lemma_depth_of_run(machine, stream.take(seen));
    }
}

/// The depth after a whole stream is the depth before it plus its nesting.
proof fn lemma_depth_of_run(machine: Machine, stream: Seq<Lexeme>)
    requires
        render(machine, stream) is Some,
        closes_leave(machine, stream),
    ensures
        settled(machine, stream).depth == machine.depth + nesting(stream),
    decreases stream.len(),
{
    if stream.len() > 0 {
        if let Lexeme::Event(event) = stream.first() {
            if event.kind != EventKind::EndOfInput {
                lemma_depth_of_run(machine.step(event.kind), stream.skip(1));
            }
        }
    }
}

/// What is formatted as a whole is formatted up to any point of it.
proof fn lemma_run_of_prefix(machine: Machine, stream: Seq<Lexeme>, seen: int)
    requires
        render(machine, stream) is Some,
        closes_leave(machine, stream),
        0 <= seen <= stream.len(),
    ensures
        render(machine, stream.take(seen)) is Some,
        closes_leave(machine, stream.take(seen)),
    decreases seen,
{
    if seen > 0 {
        assert(stream.take(seen).skip(1) =~= stream.skip(1).take(seen - 1));
        if let Lexeme::Event(event) = stream.first() {
            if event.kind != EventKind::EndOfInput {
                lemma_run_of_prefix(machine.step(event.kind), stream.skip(1), seen - 1);
            }
        }
    }
}

/// Whether no point of `stream` has seen more closing tags than opening
/// tags, counted from a depth of `depth`.
pub open spec fn well_nested(depth: nat, stream: Seq<Lexeme>) -> bool {
    forall|seen: int| 0 <= seen <= stream.len() ==> depth + nesting(#[trigger] stream.take(seen)) >= 0
}

/// The machine takes every closing tag that has an opening tag before it:
/// a stream that never closes more than it has opened is formatted, unless
/// the event source fails on it.
pub proof fn lemma_well_nested_is_formatted(machine: Machine, stream: Seq<Lexeme>)
    requires
        well_nested(machine.depth, stream),
    ensures
        render(machine, stream) is None <==> fails(stream),
    decreases stream.len(),
{
    if stream.len() > 0 && !stream[0].ends_stream() {
        let event = stream[0]->Event_0;
        let rest = stream.skip(1);
        let next = machine.step(event.kind);
        let first = stream.take(1);
        assert(nesting(first.skip(1)) == 0);
        assert(nesting(first) == if event.kind == EventKind::Open {
            1int
        } else if event.kind == EventKind::Close {
            -1int
        } else {
            0int
        });
        assert forall|seen: int| 0 <= seen <= rest.len() implies next.depth + nesting(
            #[trigger] rest.take(seen),
        ) >= 0 by {
            assert(stream.take(seen + 1).skip(1) =~= rest.take(seen));
        }
        lemma_well_nested_is_formatted(next, rest);
        lemma_fails_after_event(stream);
    }
}

/// Behind an event that does not end the stream, the stream fails where the
/// rest of it fails.
proof fn lemma_fails_after_event(stream: Seq<Lexeme>)
    requires
        stream.len() > 0,
        !stream[0].ends_stream(),
    ensures
        fails(stream) <==> fails(stream.skip(1)),
{
    let rest = stream.skip(1);
    if fails(stream) {
        let at = choose|at: int|
            0 <= at < stream.len() && stream[at] == Lexeme::Failure && forall|before: int|
                0 <= before < at ==> !(#[trigger] stream[before]).ends_stream();
        assert(rest[at - 1] == stream[at]);
    }
    if fails(rest) {
        let at = choose|at: int|
            0 <= at < rest.len() && rest[at] == Lexeme::Failure && forall|before: int|
                0 <= before < at ==> !(#[trigger] rest[before]).ends_stream();
        assert forall|before: int| 0 <= before < at + 1 implies !(#[trigger] stream[before]).ends_stream() by {
            if before > 0 {
                assert(stream[before] == rest[before - 1]);
            }
        }
    }
}

} // verus!
