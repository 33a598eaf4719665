//! A surface sample after projection, in the whole numbers by which the
//! rasterizer places, orders and shades it.

use vstd::prelude::*;

verus! {

/// One projected point of the surface.
#[derive(Clone, Copy, Debug, PartialEq, Eq)]
pub struct Sample {
    /// Column of the cell that the point projects to. It may lie outside any
    /// picture.
    pub col: i64,
    /// Row of that cell, counted downwards.
    pub row: i64,
    /// Nearness to the viewer: of two samples the one with the larger depth
    /// key is the nearer. Zero is the key of a point that has no place in
    /// front of the viewer; such a point is never drawn.
    pub depth: u64,
    /// Brightness level of the patch, or `None` when it faces away from the
    /// viewer.
    pub level: Option<usize>,
}

impl Sample {
    /// The sample can be seen at all: it faces the viewer and lies in front.
    pub open spec fn visible(self) -> bool {
        self.level is Some && self.depth > 0
    }

    /// The sample can be seen and projects to the cell `(col, row)`.
    pub open spec fn strikes(self, col: int, row: int) -> bool {
        self.visible() && self.col == col && self.row == row
    }

    /// Makes a sample that faces the viewer.
    pub fn facing(col: i64, row: i64, depth: u64, level: usize) -> (s: Sample)
        ensures
            s == (Sample { col, row, depth, level: Some(level) }),
    {
        Sample { col, row, depth, level: Some(level) }
    }

    /// Makes a sample that faces away from the viewer.
    pub fn averted(col: i64, row: i64, depth: u64) -> (s: Sample)
        ensures
            s == (Sample { col, row, depth, level: None }),
    {
        Sample { col, row, depth, level: None }
    }

    /// Tells whether the sample can be seen at all.
    pub fn is_visible(&self) -> (v: bool)
        ensures
            v == self.visible(),
    {
        self.level.is_some() && self.depth > 0
    }
}

} // verus!
