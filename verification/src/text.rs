//! How a picture reads as text.

use vstd::prelude::*;

verus! {

/// The rows of a picture as one text: each row followed by a line feed, top
/// row first.
pub open spec fn lines(rows: Seq<Seq<char>>) -> Seq<char>
    decreases rows.len(),
{
    if rows.len() == 0 {
        Seq::empty()
    } else {
        lines(rows.drop_last()) + rows.last().push('\n')
    }
}

/// The control sequence that puts a terminal's cursor in the top left
/// corner, so that a picture written after it covers the one before:
/// escape, `[`, `H`.
pub open spec fn home() -> Seq<char> {
    seq!['\u{1b}', '[', 'H']
}

/// The text of a picture grows by one row and its line feed with each row.
pub proof fn lemma_lines_push(rows: Seq<Seq<char>>, row: Seq<char>)
    ensures
        lines(rows.push(row)) == lines(rows) + row.push('\n'),
{
    assert(rows.push(row).drop_last() =~= rows);
}

/// The text of a picture of `height` rows of `width` glyphs each has
/// `height * (width + 1)` characters.
pub proof fn lemma_lines_len(rows: Seq<Seq<char>>, width: nat)
    requires
        forall|r: int| 0 <= r < rows.len() ==> (#[trigger] rows[r]).len() == width,
    ensures
        lines(rows).len() == rows.len() * (width + 1),
    decreases rows.len(),
{
    if rows.len() > 0 {
        lemma_lines_len(rows.drop_last(), width);
        assert(rows.len() * (width + 1) == (rows.len() - 1) * (width + 1) + (width + 1))
            by (nonlinear_arith);
    }
}

/// `String::push` of the standard library: it appends the character to the
/// end of the string and leaves the rest as it was.
pub assume_specification[ String::push ](text: &mut String, ch: char)
    ensures
        final(text)@ == old(text)@.push(ch),
;

} // verus!
