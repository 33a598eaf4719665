//! The frame: a grid of glyphs with the depth at which each was drawn.

use crate::palette::{glyph, glyph_for, lemma_glyph_not_blank, BLANK};
use crate::sample::Sample;
use crate::text::{home, lemma_lines_len, lemma_lines_push, lines};
use crate::viewport::{lemma_area_fits, lemma_slot_in_range, lemma_slot_injective, Viewport};
use crate::visibility::{
    covered, is_nearest, lemma_nearest_unique, lemma_shows_next, lemma_shows_unique, shows, takes,
};
use vstd::prelude::*;

verus! {

/// A picture in the making: for every cell of its viewport a glyph and the
/// depth at which it was drawn, the blank at depth zero where nothing was.
/// Both grids are held row by row, top row first.
pub struct Frame {
    viewport: Viewport,
    glyphs: Vec<char>,
    depths: Vec<u64>,
}

impl View for Frame {
    type V = Seq<Seq<char>>;

    /// The picture as rows of glyphs, top row first.
    open spec fn view(&self) -> Seq<Seq<char>> {
        Seq::new(
            self.viewport().height() as nat,
            |row: int| Seq::new(self.viewport().width() as nat, |col: int| self.glyph_at(col, row)),
        )
    }
}

impl Frame {
    /// The viewport that the frame fills.
    pub closed spec fn spec_viewport(&self) -> Viewport {
        self.viewport
    }

    /// The glyph in column `col` of row `row`.
    pub closed spec fn glyph_at(self, col: int, row: int) -> char {
        self.glyphs@[row * self.viewport.width() + col]
    }

    /// The depth at which the glyph in column `col` of row `row` was drawn.
    pub closed spec fn depth_at(self, col: int, row: int) -> u64 {
        self.depths@[row * self.viewport.width() + col]
    }

    /// The frame is the picture of `samples` on its viewport: each cell holds
    /// the shade and depth of the nearest sample that strikes it, the first
    /// of them where several are equally near, and the blank at depth zero
    /// where none does.
    pub open spec fn renders(self, samples: Seq<Sample>) -> bool {
        forall|col: int, row: int|
            #![trigger self.glyph_at(col, row)]
            #![trigger self.depth_at(col, row)]
            self.viewport().contains(col, row) ==> shows(
                samples,
                col,
                row,
                self.glyph_at(col, row),
                self.depth_at(col, row),
            )
    }

    #[verifier::type_invariant]
    closed spec fn inv(self) -> bool {
        &&& self.viewport.wf()
        &&& self.glyphs.len() == self.viewport.width() * self.viewport.height()
        &&& self.depths.len() == self.viewport.width() * self.viewport.height()
    }

    /// Makes the empty frame for `viewport`, the picture of no sample: every
    /// cell blank at depth zero.
    pub fn new(viewport: Viewport) -> (frame: Frame)
        ensures
            frame.viewport() == viewport,
            frame.renders(Seq::<Sample>::empty()),
            forall|col: int, row: int|
                #![trigger frame.glyph_at(col, row)]
                #![trigger frame.depth_at(col, row)]
                viewport.contains(col, row) ==> frame.glyph_at(col, row) == BLANK
                    && frame.depth_at(col, row) == 0,
    {
        let area = viewport.area();
        let mut glyphs: Vec<char> = Vec::new();
        let mut depths: Vec<u64> = Vec::new();
        let mut filled: usize = 0;
        while filled < area
            invariant
                filled <= area,
                glyphs.len() == filled,
                depths.len() == filled,
                forall|at: int| 0 <= at < filled ==> glyphs@[at] == BLANK,
                forall|at: int| 0 <= at < filled ==> depths@[at] == 0,
            decreases area - filled,
        {
            glyphs.push(BLANK);
            depths.push(0);
            filled = filled + 1;
        }
        proof {
            use_type_invariant(&viewport);
            let cols = viewport.width() as int;
            assert forall|col: int, row: int| viewport.contains(col, row) implies glyphs@[row
                * cols + col] == BLANK && depths@[row * cols + col] == 0 by {
                lemma_slot_in_range(cols, viewport.height() as int, col, row);
            }
        }
        Frame { viewport, glyphs, depths }
    }

    /// Returns the viewport that the frame fills.
    #[verifier::when_used_as_spec(spec_viewport)]
    pub fn viewport(&self) -> (viewport: Viewport)
        ensures
            viewport == self.viewport(),
            viewport.wf(),
    {
        proof {
            use_type_invariant(self);
        }
        self.viewport
    }

    /// Returns the glyph in column `col` of row `row`, or `None` for a cell
    /// outside the picture.
    pub fn get(&self, col: u16, row: u16) -> (r: Option<char>)
        ensures
            r is Some <==> self.viewport().contains(col as int, row as int),
            r matches Some(g) ==> g == self.glyph_at(col as int, row as int),
    {
        proof {
            use_type_invariant(self);
        }
        match self.viewport.slot(col as i64, row as i64) {
            Some(at) => Some(self.glyphs[at]),
            None => None,
        }
    }

    /// Plots one sample and tells whether it was drawn. The sample is drawn
    /// when it faces the viewer, projects to a cell of the picture and is
    /// nearer than what that cell holds; the cell then takes the sample's
    /// shade and depth. In every other case the picture stays as it was: a
    /// sample that is equally near as the cell's content leaves it alone.
    /// A frame that was the picture of some samples is afterwards the picture
    /// of those samples and this one.
    pub fn plot(&mut self, sample: Sample) -> (drawn: bool)
        ensures
            final(self).viewport() == old(self).viewport(),
            drawn == (old(self).viewport().contains(sample.col as int, sample.row as int) && takes(
                sample,
                sample.col as int,
                sample.row as int,
                old(self).depth_at(sample.col as int, sample.row as int),
            )),
            forall|col: int, row: int|
                old(self).viewport().contains(col, row) ==> #[trigger] final(self).glyph_at(
                    col,
                    row,
                ) == (if drawn && col == sample.col && row == sample.row {
                    glyph_for(sample.level->Some_0 as nat)
                } else {
                    old(self).glyph_at(col, row)
                }),
            forall|col: int, row: int|
                old(self).viewport().contains(col, row) ==> #[trigger] final(self).depth_at(
                    col,
                    row,
                ) == (if drawn && col == sample.col && row == sample.row {
                    sample.depth
                } else {
                    old(self).depth_at(col, row)
                }),
            forall|samples: Seq<Sample>| #[trigger]
                old(self).renders(samples) ==> final(self).renders(samples.push(sample)),
    {
        proof {
            use_type_invariant(&*self);
        }
        let ghost before = *self;
        let mut drawn = false;
        if let Some(level) = sample.level {
            if let Some(at) = self.viewport.slot(sample.col, sample.row) {
                if sample.depth > self.depths[at] {
                    self.depths[at] = sample.depth;
                    self.glyphs[at] = glyph(level);
                    drawn = true;
                }
            }
        }
        proof {
            let cols = self.viewport.width() as int;
            let rows = self.viewport.height() as int;
            assert forall|col: int, row: int| self.viewport.contains(col, row) implies (
            #[trigger] self.glyph_at(col, row)) == (if drawn && col == sample.col && row
                == sample.row {
                glyph_for(sample.level->Some_0 as nat)
            } else {
                before.glyph_at(col, row)
            }) by {
                lemma_slot_in_range(cols, rows, col, row);
                if drawn && row * cols + col == sample.row * cols + sample.col {
                    lemma_slot_injective(cols, col, row, sample.col as int, sample.row as int);
                }
            }
            assert forall|col: int, row: int| self.viewport.contains(col, row) implies (
            #[trigger] self.depth_at(col, row)) == (if drawn && col == sample.col && row
                == sample.row {
                sample.depth
            } else {
                before.depth_at(col, row)
            }) by {
                lemma_slot_in_range(cols, rows, col, row);
                if drawn && row * cols + col == sample.row * cols + sample.col {
                    lemma_slot_injective(cols, col, row, sample.col as int, sample.row as int);
                }
            }
            assert forall|samples: Seq<Sample>| #[trigger]
                before.renders(samples) implies self.renders(samples.push(sample)) by {
                assert forall|col: int, row: int| self.viewport.contains(col, row) implies shows(
                    samples.push(sample),
                    col,
                    row,
                    #[trigger] self.glyph_at(col, row),
                    self.depth_at(col, row),
                ) by {
                    lemma_shows_next(
                        samples,
                        sample,
                        col,
                        row,
                        before.glyph_at(col, row),
                        before.depth_at(col, row),
                    );
                }
            }
        }
        drawn
    }

    /// Appends the picture to `text`, row by row, each row followed by a line
    /// feed.
    fn write_rows(&self, text: &mut String)
        ensures
            final(text)@ == old(text)@ + lines(self@),
    {
        proof {
            use_type_invariant(self);
        }
        let width = self.viewport.width();
        let height = self.viewport.height();
        let ghost start = text@;
        let mut row: u16 = 0;
        assert(self@.take(0) =~= Seq::<Seq<char>>::empty());
        assert(start + lines(self@.take(0)) =~= start);
        while row < height
            invariant
                row <= height,
                width == self.viewport.width(),
                height == self.viewport.height(),
                self.glyphs.len() == self.viewport.width() * self.viewport.height(),
                text@ == start + lines(self@.take(row as int)),
            decreases height - row,
        {
            let ghost done = text@;
            let mut col: u16 = 0;
            assert(self@[row as int].take(0) =~= Seq::<char>::empty());
            assert(done + self@[row as int].take(0) =~= done);
            while col < width
                invariant
                    col <= width,
                    row < height,
                    width == self.viewport.width(),
                    height == self.viewport.height(),
                    self.glyphs.len() == self.viewport.width() * self.viewport.height(),
                    text@ == done + self@[row as int].take(col as int),
                decreases width - col,
            {
                proof {
                    lemma_slot_in_range(width as int, height as int, col as int, row as int);
                    lemma_area_fits(width as int, height as int);
                }
                let at = (row as usize) * (width as usize) + (col as usize);
                text.push(self.glyphs[at]);
                proof {
                    assert(self@[row as int][col as int] == self.glyphs@[at as int]);
                    assert(self@[row as int].take(col as int).push(self@[row as int][col as int])
                        =~= self@[row as int].take(col as int + 1));
                    assert((done + self@[row as int].take(col as int)).push(
                        self@[row as int][col as int],
                    ) =~= done + self@[row as int].take(col as int + 1));
                }
                col = col + 1;
            }
            text.push('\n');
            proof {
                assert(self@[row as int].take(width as int) =~= self@[row as int]);
                assert(self@.take(row as int).push(self@[row as int]) =~= self@.take(
                    row as int + 1,
                ));
                lemma_lines_push(self@.take(row as int), self@[row as int]);
                assert((done + self@[row as int]).push('\n') =~= done + self@[row as int].push(
                    '\n',
                ));
                assert(start + lines(self@.take(row as int)) + self@[row as int].push('\n')
                    =~= start + (lines(self@.take(row as int)) + self@[row as int].push('\n')));
            }
            row = row + 1;
        }
        assert(self@.take(height as int) =~= self@);
    }

    /// Returns the picture as text: each row followed by a line feed, top
    /// row first.
    pub fn to_text(&self) -> (text: String)
        ensures
            text@ == lines(self@),
            text@.len() == self.viewport().height() * (self.viewport().width() + 1),
    {
        let mut text = String::new();
        self.write_rows(&mut text);
        proof {
            assert(Seq::<char>::empty() + lines(self@) =~= lines(self@));
            lemma_lines_len(self@, self.viewport().width() as nat);
        }
        text
    }

    /// Returns the picture as it is written to a terminal: the sequence that
    /// homes the cursor, then the text of the picture.
    pub fn to_screen(&self) -> (text: String)
        ensures
            text@ == home() + lines(self@),
    {
        let mut text = String::new();
        text.push('\u{1b}');
        text.push('[');
        text.push('H');
        assert(text@ =~= home());
        self.write_rows(&mut text);
        text
    }
}

/// A picture is fixed by its size and its samples: two frames of the same
/// size that render the same samples hold the same glyphs at the same depths,
/// and read as the same text.
pub proof fn lemma_render_deterministic(first: Frame, second: Frame, samples: Seq<Sample>)
    requires
        first.viewport().width() == second.viewport().width(),
        first.viewport().height() == second.viewport().height(),
        first.renders(samples),
        second.renders(samples),
    ensures
        first@ == second@,
        lines(first@) == lines(second@),
        forall|col: int, row: int|
            first.viewport().contains(col, row) ==> first.glyph_at(col, row) == second.glyph_at(
                col,
                row,
            ) && first.depth_at(col, row) == second.depth_at(col, row),
{
    first.viewport().lemma_same_size(second.viewport());
    assert forall|col: int, row: int| first.viewport().contains(col, row) implies first.glyph_at(
        col,
        row,
    ) == second.glyph_at(col, row) && first.depth_at(col, row) == second.depth_at(col, row) by {
        lemma_shows_unique(
            samples,
            col,
            row,
            first.glyph_at(col, row),
            first.depth_at(col, row),
            second.glyph_at(col, row),
            second.depth_at(col, row),
        );
    }
    assert(first@ =~~= second@);
}

/// What a cell of a picture holds, said without the order of drawing. Where
/// no sample strikes the cell, it is blank. Where some do, the cell is not
/// blank: it holds the shade and the depth of the one that is seen there, and
/// no sample that strikes the cell has a larger depth than the cell.
pub proof fn lemma_rendered_cell(frame: Frame, samples: Seq<Sample>, col: int, row: int)
    requires
        frame.renders(samples),
        frame.viewport().contains(col, row),
    ensures
        covered(samples, col, row) <==> frame.glyph_at(col, row) != BLANK,
        covered(samples, col, row) <==> frame.depth_at(col, row) != 0,
        forall|i: int| #[trigger]
            is_nearest(samples, col, row, i) ==> frame.glyph_at(col, row) == glyph_for(
                samples[i].level->Some_0 as nat,
            ) && frame.depth_at(col, row) == samples[i].depth,
        forall|j: int|
            0 <= j < samples.len() && (#[trigger] samples[j]).strikes(col, row) ==> samples[j].depth
                <= frame.depth_at(col, row),
{
    let glyph = frame.glyph_at(col, row);
    if covered(samples, col, row) {
        let k = choose|k: int|
            #[trigger] is_nearest(samples, col, row, k) && glyph == glyph_for(
                samples[k].level->Some_0 as nat,
            ) && frame.depth_at(col, row) == samples[k].depth;
        lemma_glyph_not_blank(samples[k].level->Some_0 as nat);
        assert forall|i: int| #[trigger] is_nearest(samples, col, row, i) implies i == k by {
            lemma_nearest_unique(samples, col, row, i, k);
        }
    } else {
        assert forall|i: int| #[trigger] is_nearest(samples, col, row, i) implies false by {
            assert(samples[i].strikes(col, row));
        }
    }
}

} // verus!
