//! The shading palette: twelve glyphs ordered from dimmest to brightest.

use vstd::prelude::*;

verus! {

/// Number of glyphs in the palette.
pub const PALETTE_LEN: usize = 12;

/// The glyph of a cell on which nothing has been drawn.
pub const BLANK: char = ' ';

/// The glyphs, dimmest first.
pub open spec fn palette() -> Seq<char> {
    seq!['.', ',', '-', '~', ':', ';', '=', '!', '*', '#', '$', '@']
}

/// The palette position used for a brightness level: the level itself, held
/// to the last position when it runs past the palette.
pub open spec fn ordinal_for(level: nat) -> nat {
    if level < 12 {
        level
    } else {
        11
    }
}

/// The glyph that shades a brightness level.
pub open spec fn glyph_for(level: nat) -> char {
    palette()[ordinal_for(level) as int]
}

/// The position of a glyph in the palette, if it is one of its glyphs.
pub open spec fn ordinal_of(glyph: char) -> Option<nat> {
    if exists|i: int| 0 <= i < 12 && palette()[i] == glyph {
        Some((choose|i: int| 0 <= i < 12 && palette()[i] == glyph) as nat)
    } else {
        None
    }
}

/// The palette holds twelve glyphs, no two of them alike, and none of them
/// is the blank.
pub proof fn lemma_palette_distinct()
    ensures
        palette().len() == 12,
        forall|i: int, j: int|
            0 <= i < 12 && 0 <= j < 12 && #[trigger] palette()[i] == #[trigger] palette()[j] ==> i
                == j,
        forall|i: int| 0 <= i < 12 ==> #[trigger] palette()[i] != BLANK,
{
}

/// Every position of the palette is the position of the glyph it holds.
pub proof fn lemma_ordinal_of_palette(i: int)
    requires
        0 <= i < 12,
    ensures
        ordinal_of(palette()[i]) == Some(i as nat),
{
    lemma_palette_distinct();
}

/// The glyph of a level sits at that level's position.
pub proof fn lemma_ordinal_of_glyph(level: nat)
    ensures
        ordinal_of(glyph_for(level)) == Some(ordinal_for(level)),
{
    lemma_ordinal_of_palette(ordinal_for(level) as int);
}

/// A brighter level never gets a dimmer glyph: the glyph of the larger level
/// stands at the same or a later position of the palette.
pub proof fn lemma_glyph_monotonic(dim: nat, bright: nat)
    requires
        dim <= bright,
    ensures
        ordinal_of(glyph_for(dim)) is Some,
        ordinal_of(glyph_for(bright)) is Some,
        ordinal_of(glyph_for(dim))->Some_0 <= ordinal_of(glyph_for(bright))->Some_0,
{
    lemma_ordinal_of_glyph(dim);
    lemma_ordinal_of_glyph(bright);
}

/// No level is shaded with the blank.
pub proof fn lemma_glyph_not_blank(level: nat)
    ensures
        glyph_for(level) != BLANK,
{
    lemma_palette_distinct();
}

/// Returns the glyph that shades `level`; levels past the palette get its
/// brightest glyph.
pub fn glyph(level: usize) -> (g: char)
    ensures
        g == glyph_for(level as nat),
{
    match level {
        0 => '.',
        1 => ',',
        2 => '-',
        3 => '~',
        4 => ':',
        5 => ';',
        6 => '=',
        7 => '!',
        8 => '*',
        9 => '#',
        10 => '$',
        _ => '@',
    }
}

/// Returns the palette position of `glyph`, or `None` for a character that
/// the palette does not hold.
pub fn ordinal(glyph: char) -> (r: Option<usize>)
    ensures
        r is Some <==> ordinal_of(glyph) is Some,
        r matches Some(i) ==> ordinal_of(glyph) == Some(i as nat),
{
    proof {
        lemma_palette_distinct();
    }
    let r: Option<usize> = match glyph {
        '.' => Some(0),
        ',' => Some(1),
        '-' => Some(2),
        '~' => Some(3),
        ':' => Some(4),
        ';' => Some(5),
        '=' => Some(6),
        '!' => Some(7),
        '*' => Some(8),
        '#' => Some(9),
        '$' => Some(10),
        '@' => Some(11),
        _ => None,
    };
    proof {
        if let Some(i) = r {
            lemma_ordinal_of_palette(i as int);
        }
    }
    r
}

} // verus!
