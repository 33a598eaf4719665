//! The viewport: the size of the picture in character cells.

use vstd::prelude::*;

verus! {

/// A picture size in character cells. Both sides are at least one cell: a
/// viewport without area cannot be made.
#[derive(Clone, Copy, Debug)]
pub struct Viewport {
    width: u16,
    height: u16,
}

impl Viewport {
    /// Number of columns.
    pub closed spec fn spec_width(&self) -> u16 {
        self.width
    }

    /// Number of rows.
    pub closed spec fn spec_height(&self) -> u16 {
        self.height
    }

    /// Both sides are positive. Every viewport that executable code holds
    /// satisfies this.
    #[verifier::type_invariant]
    pub open spec fn wf(self) -> bool {
        self.width() > 0 && self.height() > 0
    }

    /// Whether the cell in column `col` of row `row` lies in the picture.
    pub open spec fn contains(self, col: int, row: int) -> bool {
        0 <= col < self.width() && 0 <= row < self.height()
    }

    /// Two viewports of the same size are the same viewport.
    pub proof fn lemma_same_size(self, other: Viewport)
        requires
            self.width() == other.width(),
            self.height() == other.height(),
        ensures
            self == other,
    {
    }

    /// Makes a viewport of `width` columns and `height` rows, or `None` when
    /// either is zero.
    pub fn new(width: u16, height: u16) -> (r: Option<Viewport>)
        ensures
            r is Some <==> width > 0 && height > 0,
            r matches Some(v) ==> v.wf() && v.width() == width && v.height() == height,
    {
        if width == 0 || height == 0 {
            None
        } else {
            Some(Viewport { width, height })
        }
    }

    /// Makes the viewport for a terminal of the given size, `(columns, lines)`:
    /// the viewport of the terminal's picture size. `None` when the size is
    /// unknown or leaves no cell to draw on.
    pub fn from_terminal(size: Option<(u16, u16)>) -> (r: Option<Viewport>)
        ensures
            r is Some <==> (size matches Some((columns, lines)) && columns >= 2 && lines >= 1),
            r matches Some(v) ==> v.wf(),
            r matches Some(v) ==> (size matches Some((columns, lines)) && v.width() == columns / 2
                && v.height() == lines),
    {
        let (width, height) = picture_size(size);
        Viewport::new(width, height)
    }

    /// Returns the number of columns.
    #[verifier::when_used_as_spec(spec_width)]
    pub fn width(&self) -> (w: u16)
        ensures
            w == self.width(),
            w > 0,
    {
        proof {
            use_type_invariant(self);
        }
        self.width
    }

    /// Returns the number of rows.
    #[verifier::when_used_as_spec(spec_height)]
    pub fn height(&self) -> (h: u16)
        ensures
            h == self.height(),
            h > 0,
    {
        proof {
            use_type_invariant(self);
        }
        self.height
    }

    /// Returns the column on which the picture is centred: half the width,
    /// rounded down.
    pub fn center_col(&self) -> (c: u16)
        ensures
            c == self.width() / 2,
    {
        self.width / 2
    }

    /// Returns the row on which the picture is centred: half the height,
    /// rounded down.
    pub fn center_row(&self) -> (c: u16)
        ensures
            c == self.height() / 2,
    {
        self.height / 2
    }

    /// Returns the number of cells.
    pub fn area(&self) -> (n: usize)
        ensures
            n == self.width() * self.height(),
            n > 0,
    {
        proof {
            use_type_invariant(self);
            lemma_area_fits(self.width as int, self.height as int);
        }
        (self.width as usize) * (self.height as usize)
    }

    /// Tells whether the cell in column `col` of row `row` lies in the picture.
    pub fn holds(&self, col: i64, row: i64) -> (inside: bool)
        ensures
            inside == self.contains(col as int, row as int),
    {
        0 <= col && col < self.width as i64 && 0 <= row && row < self.height as i64
    }

    /// Returns the place of a cell in a row-major buffer, or `None` for a cell
    /// outside the picture.
    pub(crate) fn slot(&self, col: i64, row: i64) -> (r: Option<usize>)
        ensures
            r is Some <==> self.contains(col as int, row as int),
            r matches Some(at) ==> at == row * self.width() + col,
            r matches Some(at) ==> at < self.width() * self.height(),
    {
        if self.holds(col, row) {
            proof {
                lemma_slot_in_range(self.width as int, self.height as int, col as int, row as int);
                lemma_area_fits(self.width as int, self.height as int);
            }
            Some((row as usize) * (self.width as usize) + (col as usize))
        } else {
            None
        }
    }
}

/// The width and height of the picture for a terminal of the given size,
/// `(columns, lines)`. A glyph is about twice as tall as it is wide, so the
/// picture takes half of the terminal's columns, rounded down, and all of
/// its lines. A terminal of unknown size gets a picture without area.
pub open spec fn picture_size_of(size: Option<(u16, u16)>) -> (u16, u16) {
    match size {
        Some((columns, lines)) => ((columns / 2) as u16, lines),
        None => (0u16, 0u16),
    }
}

/// Returns the width and height of the picture for a terminal of the given
/// size: half its columns and all of its lines, or nothing at all when the
/// size is unknown.
pub fn picture_size(size: Option<(u16, u16)>) -> (r: (u16, u16))
    ensures
        r == picture_size_of(size),
{
    match size {
        Some((columns, lines)) => (columns / 2, lines),
        None => (0, 0),
    }
}

/// The area of a picture whose sides fit in sixteen bits fits in a `usize`.
pub(crate) proof fn lemma_area_fits(cols: int, rows: int)
    requires
        0 < cols <= u16::MAX,
        0 < rows <= u16::MAX,
    ensures
        0 < cols * rows <= 0xfffe_0001,
        cols * rows <= usize::MAX,
{
    assert(0 < cols * rows <= 0xfffe_0001) by (nonlinear_arith)
        requires
            0 < cols <= 65535,
            0 < rows <= 65535,
    ;
}

/// A cell of the picture has a place below the area, and its row's places
/// start at a multiple of the width.
pub(crate) proof fn lemma_slot_in_range(cols: int, rows: int, col: int, row: int)
    requires
        0 <= col < cols,
        0 <= row < rows,
    ensures
        0 <= row * cols + col < cols * rows,
        0 <= row * cols <= cols * rows - cols,
{
    assert(0 <= row * cols <= cols * rows - cols) by (nonlinear_arith)
        requires
            0 <= col < cols,
            0 <= row < rows,
    ;
}

/// Two cells of the picture with the same place are the same cell.
pub(crate) proof fn lemma_slot_injective(cols: int, col: int, row: int, col2: int, row2: int)
    requires
        0 <= col < cols,
        0 <= col2 < cols,
        row * cols + col == row2 * cols + col2,
    ensures
        col == col2,
        row == row2,
{
    assert(row == row2) by (nonlinear_arith)
        requires
            0 <= col < cols,
            0 <= col2 < cols,
            row * cols + col == row2 * cols + col2,
    ;
}

} // verus!
