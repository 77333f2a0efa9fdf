//! Line breaks and indentation.

use vstd::prelude::*;
use vstd::string::StringSliceAdditionalSpecFns;

verus! {

/// The bytes that end a line.
pub open spec fn line_break() -> Seq<u8> {
    "\n".spec_bytes()
}

/// The indent of one nesting level: two spaces.
pub open spec fn indent_unit() -> Seq<u8> {
    "  ".spec_bytes()
}

/// The indent of a line at nesting depth `depth`: the unit, `depth` times.
pub open spec fn indentation(depth: nat) -> Seq<u8>
    decreases depth,
{
    if depth == 0 {
        Seq::empty()
    } else {
        indentation((depth - 1) as nat) + indent_unit()
    }
}

/// What starts a new line at nesting depth `depth`: a line break, then the
/// indent of that depth.
pub open spec fn line_start(depth: nat) -> Seq<u8> {
    line_break() + indentation(depth)
}

/// A line break is the single byte 10.
pub proof fn lemma_line_break_is_newline()
    ensures
        line_break() == seq![10u8],
{
    reveal_strlit("\n");
    assert(vstd::string::is_ascii("\n"));
}

/// The indent of depth `depth` is `2 * depth` bytes long, each of them a
/// space.
pub proof fn lemma_indentation_is_spaces(depth: nat)
    ensures
        indentation(depth).len() == 2 * depth,
        forall|i: int| 0 <= i < 2 * depth ==> indentation(depth)[i] == 32u8,
    decreases depth,
{
    if depth > 0 {
        lemma_indentation_is_spaces((depth - 1) as nat);
        reveal_strlit("  ");
        assert(vstd::string::is_ascii("  "));
    }
}

/// The indent of a line at nesting depth `size`.
pub fn indent(size: usize) -> (pad: Vec<u8>)
    ensures
        pad@ == indentation(size as nat),
{
    let mut pad: Vec<u8> = Vec::new();
    let mut level: usize = 0;
    while level < size
        invariant
            level <= size,
            pad@ == indentation(level as nat),
        decreases size - level,
    {
        pad.extend_from_slice("  ".as_bytes());
        level = level + 1;
    }
    pad
}

/// Starts a new line in `out`, indented for nesting depth `depth`.
pub fn start_line(out: &mut Vec<u8>, depth: usize)
    ensures
        final(out)@ == old(out)@ + line_start(depth as nat),
{
    out.extend_from_slice("\n".as_bytes());
    let pad = indent(depth);
    out.extend_from_slice(pad.as_slice());
}

} // verus!
