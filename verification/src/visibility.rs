//! Which sample is seen at a cell: the nearest of those that strike it, and
//! among equally near ones the earliest.

use crate::palette::{glyph_for, BLANK};
use crate::sample::Sample;
use vstd::prelude::*;

verus! {

/// At least one sample of the sequence can be seen at the cell `(col, row)`.
pub open spec fn covered(samples: Seq<Sample>, col: int, row: int) -> bool {
    exists|i: int| 0 <= i < samples.len() && (#[trigger] samples[i]).strikes(col, row)
}

/// Sample `i` is the one seen at the cell `(col, row)`: it strikes the cell,
/// no sample that strikes the cell is nearer, and every earlier one that
/// strikes it is farther.
pub open spec fn is_nearest(samples: Seq<Sample>, col: int, row: int, i: int) -> bool {
    &&& 0 <= i < samples.len()
    &&& samples[i].strikes(col, row)
    &&& forall|j: int|
        0 <= j < samples.len() && (#[trigger] samples[j]).strikes(col, row) ==> samples[j].depth
            <= samples[i].depth
    &&& forall|j: int|
        0 <= j < i && (#[trigger] samples[j]).strikes(col, row) ==> samples[j].depth
            < samples[i].depth
}

/// The cell `(col, row)` of a picture of `samples` holds `glyph` at depth
/// `depth`: the shade and depth of the sample seen there, or the blank at
/// depth zero where no sample is seen.
pub open spec fn shows(samples: Seq<Sample>, col: int, row: int, glyph: char, depth: u64) -> bool {
    if covered(samples, col, row) {
        exists|i: int|
            #[trigger] is_nearest(samples, col, row, i) && glyph == glyph_for(
                samples[i].level->Some_0 as nat,
            ) && depth == samples[i].depth
    } else {
        glyph == BLANK && depth == 0
    }
}

/// A sample takes a cell that holds depth `depth`: it strikes the cell and is
/// nearer than what the cell holds.
pub open spec fn takes(sample: Sample, col: int, row: int, depth: u64) -> bool {
    sample.strikes(col, row) && sample.depth > depth
}

/// At most one sample is the one seen at a cell.
pub proof fn lemma_nearest_unique(samples: Seq<Sample>, col: int, row: int, i: int, k: int)
    requires
        is_nearest(samples, col, row, i),
        is_nearest(samples, col, row, k),
    ensures
        i == k,
{
    if i < k {
        assert(samples[i].depth < samples[k].depth);
        assert(samples[k].depth <= samples[i].depth);
    } else if k < i {
        assert(samples[k].depth < samples[i].depth);
        assert(samples[i].depth <= samples[k].depth);
    }
}

/// The order of the samples matters only between equally near ones: a sample
/// that strikes a cell and is nearer than every other sample that strikes it
/// is the one seen there, wherever in the sequence it stands.
pub proof fn lemma_strictly_nearest(samples: Seq<Sample>, col: int, row: int, i: int)
    requires
        0 <= i < samples.len(),
        samples[i].strikes(col, row),
        forall|j: int|
            0 <= j < samples.len() && j != i && (#[trigger] samples[j]).strikes(col, row)
                ==> samples[j].depth < samples[i].depth,
    ensures
        is_nearest(samples, col, row, i),
{
}

/// The samples fix what a cell holds: two descriptions of the same cell of
/// the same samples agree.
pub proof fn lemma_shows_unique(
    samples: Seq<Sample>,
    col: int,
    row: int,
    glyph: char,
    depth: u64,
    glyph2: char,
    depth2: u64,
)
    requires
        shows(samples, col, row, glyph, depth),
        shows(samples, col, row, glyph2, depth2),
    ensures
        glyph == glyph2,
        depth == depth2,
{
    if covered(samples, col, row) {
        let i = choose|i: int|
            #[trigger] is_nearest(samples, col, row, i) && glyph == glyph_for(
                samples[i].level->Some_0 as nat,
            ) && depth == samples[i].depth;
        let k = choose|k: int|
            #[trigger] is_nearest(samples, col, row, k) && glyph2 == glyph_for(
                samples[k].level->Some_0 as nat,
            ) && depth2 == samples[k].depth;
        lemma_nearest_unique(samples, col, row, i, k);
    }
}

/// Before any sample, every cell holds the blank at depth zero.
pub proof fn lemma_shows_nothing(col: int, row: int)
    ensures
        shows(Seq::<Sample>::empty(), col, row, BLANK, 0),
{
}

/// The depth test is right. Where a cell holds what is seen of `samples`, and
/// one more sample comes, the cell of the longer sequence holds the
/// newcomer's shade and depth if the newcomer takes the cell, and what it
/// held before if not.
pub proof fn lemma_shows_next(
    samples: Seq<Sample>,
    sample: Sample,
    col: int,
    row: int,
    glyph: char,
    depth: u64,
)
    requires
        shows(samples, col, row, glyph, depth),
    ensures
        takes(sample, col, row, depth) ==> shows(
            samples.push(sample),
            col,
            row,
            glyph_for(sample.level->Some_0 as nat),
            sample.depth,
        ),
        !takes(sample, col, row, depth) ==> shows(samples.push(sample), col, row, glyph, depth),
{
    let longer = samples.push(sample);
    let n = samples.len() as int;
    assert(longer[n] == sample);
    assert(forall|j: int| 0 <= j < n ==> longer[j] == samples[j]);
    if covered(samples, col, row) {
        let i = choose|i: int|
            #[trigger] is_nearest(samples, col, row, i) && glyph == glyph_for(
                samples[i].level->Some_0 as nat,
            ) && depth == samples[i].depth;
        assert(longer[i].strikes(col, row));
        if takes(sample, col, row, depth) {
            assert(is_nearest(longer, col, row, n));
        } else {
            assert(is_nearest(longer, col, row, i));
        }
    } else {
        if sample.strikes(col, row) {
            assert(takes(sample, col, row, depth));
            assert(is_nearest(longer, col, row, n));
        } else {
            assert forall|j: int| 0 <= j < longer.len() implies !(#[trigger] longer[j]).strikes(
                col,
                row,
            ) by {
                if j < n {
                    assert(!samples[j].strikes(col, row));
                }
            }
        }
    }
}

/// Where any sample can be seen at a cell, one of them is the one seen there.
pub proof fn lemma_nearest_exists(samples: Seq<Sample>, col: int, row: int)
    requires
        covered(samples, col, row),
    ensures
        exists|i: int| is_nearest(samples, col, row, i),
    decreases samples.len(),
{
    let earlier = samples.drop_last();
    let last = samples.last();
    assert(samples =~= earlier.push(last));
    if covered(earlier, col, row) {
        lemma_nearest_exists(earlier, col, row);
        let i = choose|i: int| is_nearest(earlier, col, row, i);
        let glyph = glyph_for(earlier[i].level->Some_0 as nat);
        let depth = earlier[i].depth;
        lemma_shows_next(earlier, last, col, row, glyph, depth);
    } else {
        lemma_shows_next(earlier, last, col, row, BLANK, 0);
    }
}

} // verus!
