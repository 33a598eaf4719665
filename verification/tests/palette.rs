use donut::palette::{glyph, ordinal, BLANK, PALETTE_LEN};

const GLYPHS: &str = ".,-~:;=!*#$@";

#[test]
fn palette_has_twelve_glyphs() {
    assert_eq!(PALETTE_LEN, 12);
    assert_eq!(GLYPHS.chars().count(), PALETTE_LEN);
}

#[test]
fn glyph_follows_the_palette() {
    for (level, expected) in GLYPHS.chars().enumerate() {
        assert_eq!(glyph(level), expected);
    }
}

#[test]
fn glyph_of_first_and_last_level() {
    assert_eq!(glyph(0), '.');
    assert_eq!(glyph(11), '@');
}

#[test]
fn glyph_holds_levels_past_the_palette_to_the_brightest() {
    assert_eq!(glyph(12), '@');
    assert_eq!(glyph(13), '@');
    assert_eq!(glyph(1000), '@');
    assert_eq!(glyph(usize::MAX), '@');
}

#[test]
fn glyph_is_never_blank() {
    for level in 0..40 {
        assert_ne!(glyph(level), BLANK);
    }
}

#[test]
fn ordinal_finds_every_glyph() {
    for (position, c) in GLYPHS.chars().enumerate() {
        assert_eq!(ordinal(c), Some(position));
    }
}

#[test]
fn ordinal_of_a_glyph_is_its_level() {
    for level in 0..12 {
        assert_eq!(ordinal(glyph(level)), Some(level));
    }
    assert_eq!(ordinal(glyph(12)), Some(11));
}

#[test]
fn ordinal_knows_no_other_character() {
    assert_eq!(ordinal(BLANK), None);
    assert_eq!(ordinal('x'), None);
    assert_eq!(ordinal('\n'), None);
    assert_eq!(ordinal('+'), None);
    assert_eq!(ordinal('\u{1b}'), None);
}

#[test]
fn brighter_levels_never_get_dimmer_glyphs() {
    for dim in 0..30 {
        for bright in dim..30 {
            let low = ordinal(glyph(dim)).unwrap();
            let high = ordinal(glyph(bright)).unwrap();
            assert!(low <= high, "levels {} and {}", dim, bright);
        }
    }
}

#[test]
fn blank_is_a_space() {
    assert_eq!(BLANK, ' ');
}
