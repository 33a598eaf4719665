use donut::frame::Frame;
use donut::palette::{glyph, BLANK};
use donut::raster::{rasterize, render, sweep};
use std::cell::RefCell;
use donut::sample::Sample;
use donut::viewport::Viewport;

/// A fixed sequence of numbers that looks scattered.
fn scatter(state: &mut u64) -> u64 {
    *state = state
        .wrapping_mul(6364136223846793005)
        .wrapping_add(1442695040888963407);
    *state >> 33
}

/// Samples around and inside a picture of the given size, with few distinct
/// depths, so that cells are contested and depths tie.
fn scattered_samples(count: usize, width: i64, height: i64, seed: u64) -> Vec<Sample> {
    let mut state = seed;
    let mut samples = Vec::new();
    for _ in 0..count {
        let col = (scatter(&mut state) % (width as u64 + 4)) as i64 - 2;
        let row = (scatter(&mut state) % (height as u64 + 4)) as i64 - 2;
        let depth = scatter(&mut state) % 6;
        let level = (scatter(&mut state) % 16) as usize;
        if scatter(&mut state) % 5 == 0 {
            samples.push(Sample::averted(col, row, depth));
        } else {
            samples.push(Sample::facing(col, row, depth, level));
        }
    }
    samples
}

/// The glyph of a cell found by looking at every sample: the first of the
/// visible samples in the cell that have the largest depth.
fn by_brute_force(samples: &[Sample], col: i64, row: i64) -> char {
    let mut best: Option<&Sample> = None;
    for s in samples {
        if s.level.is_none() || s.depth == 0 || s.col != col || s.row != row {
            continue;
        }
        match best {
            Some(b) if b.depth >= s.depth => {}
            _ => best = Some(s),
        }
    }
    match best {
        Some(s) => glyph(s.level.unwrap()),
        None => BLANK,
    }
}

#[test]
fn rasterize_no_samples_gives_a_blank_frame() {
    let frame = rasterize(Viewport::new(3, 2).unwrap(), &Vec::new());
    assert_eq!(frame.to_text(), "   \n   \n");
}

#[test]
fn rasterize_keeps_the_nearest_sample_of_a_cell() {
    let samples = vec![
        Sample::facing(1, 0, 5, 1),
        Sample::facing(1, 0, 9, 2),
        Sample::facing(1, 0, 7, 3),
    ];
    let frame = rasterize(Viewport::new(3, 1).unwrap(), &samples);
    assert_eq!(frame.to_text(), " - \n");
}

#[test]
fn rasterize_keeps_the_first_of_equally_near_samples() {
    let samples = vec![
        Sample::facing(0, 0, 9, 4),
        Sample::facing(0, 0, 9, 5),
        Sample::facing(0, 0, 9, 6),
    ];
    let frame = rasterize(Viewport::new(1, 1).unwrap(), &samples);
    assert_eq!(frame.get(0, 0), Some(':'));
}

#[test]
fn rasterize_skips_averted_and_outside_samples() {
    let samples = vec![
        Sample::averted(0, 0, 9),
        Sample::facing(2, 0, 9, 6),
        Sample::facing(0, 1, 9, 6),
        Sample::facing(-1, 0, 9, 6),
        Sample::facing(1, 0, 0, 6),
    ];
    let frame = rasterize(Viewport::new(2, 1).unwrap(), &samples);
    assert_eq!(frame.to_text(), "  \n");
}

#[test]
fn rasterize_matches_brute_force() {
    for seed in 1..=20u64 {
        let samples = scattered_samples(400, 9, 6, seed);
        let frame = rasterize(Viewport::new(9, 6).unwrap(), &samples);
        for row in 0..6u16 {
            for col in 0..9u16 {
                assert_eq!(
                    frame.get(col, row),
                    Some(by_brute_force(&samples, col as i64, row as i64)),
                    "seed {} cell ({}, {})",
                    seed,
                    col,
                    row
                );
            }
        }
    }
}

#[test]
fn rasterize_twice_gives_the_same_frame() {
    let samples = scattered_samples(500, 12, 7, 99);
    let viewport = Viewport::new(12, 7).unwrap();
    let first = rasterize(viewport, &samples);
    let second = rasterize(viewport, &samples);
    assert_eq!(first.to_text(), second.to_text());
    for row in 0..7u16 {
        for col in 0..12u16 {
            assert_eq!(first.get(col, row), second.get(col, row));
        }
    }
}

#[test]
fn rasterize_is_plotting_one_by_one() {
    let samples = scattered_samples(500, 12, 7, 7);
    let viewport = Viewport::new(12, 7).unwrap();
    let batch = rasterize(viewport, &samples);
    let mut stream = Frame::new(viewport);
    for s in &samples {
        stream.plot(*s);
    }
    assert_eq!(batch.to_text(), stream.to_text());
}

#[test]
fn order_matters_only_between_equally_near_samples() {
    let mut state = 5u64;
    let mut samples = Vec::new();
    for depth in 1..=300u64 {
        let col = (scatter(&mut state) % 8) as i64;
        let row = (scatter(&mut state) % 5) as i64;
        let level = (scatter(&mut state) % 12) as usize;
        samples.push(Sample::facing(col, row, depth, level));
    }
    let viewport = Viewport::new(8, 5).unwrap();
    let forward = rasterize(viewport, &samples);
    samples.reverse();
    let backward = rasterize(viewport, &samples);
    assert_eq!(forward.to_text(), backward.to_text());
}

#[test]
fn render_makes_the_frame_of_the_given_size() {
    let samples = vec![Sample::facing(1, 1, 3, 10)];
    let frame = render(3, 2, &samples).unwrap();
    assert_eq!(frame.viewport().width(), 3);
    assert_eq!(frame.viewport().height(), 2);
    assert_eq!(frame.to_text(), "   \n $ \n");
}

#[test]
fn render_on_a_viewport_without_area_is_skipped() {
    let samples = vec![Sample::facing(0, 0, 3, 10)];
    assert!(render(0, 0, &samples).is_none());
    assert!(render(0, 20, &samples).is_none());
    assert!(render(40, 0, &samples).is_none());
    assert!(render(0, 0, &Vec::new()).is_none());
}

#[test]
fn sweep_visits_the_grid_ring_by_ring() {
    let visited = RefCell::new(Vec::new());
    let frame = sweep(Viewport::new(4, 3).unwrap(), 3, 4, |ring: usize, step: usize| {
        visited.borrow_mut().push((ring, step));
        Sample::averted(0, 0, 1)
    });
    let mut expected = Vec::new();
    for ring in 0..3usize {
        for step in 0..4usize {
            expected.push((ring, step));
        }
    }
    assert_eq!(visited.into_inner(), expected);
    assert_eq!(frame.to_text(), "    \n    \n    \n");
}

#[test]
fn sweep_draws_what_the_projection_gives() {
    let frame = sweep(Viewport::new(4, 3).unwrap(), 3, 4, |ring: usize, step: usize| {
        Sample::facing(step as i64, ring as i64, 1, ring * 4 + step)
    });
    assert_eq!(frame.to_text(), ".,-~\n:;=!\n*#$@\n");
}

#[test]
fn sweep_is_rasterizing_the_swept_samples() {
    let listed = scattered_samples(600, 10, 6, 21);
    let viewport = Viewport::new(10, 6).unwrap();
    let swept = sweep(viewport, 20, 30, |ring: usize, step: usize| listed[ring * 30 + step]);
    assert_eq!(swept.to_text(), rasterize(viewport, &listed).to_text());
}

#[test]
fn sweep_keeps_the_first_of_equally_near_samples() {
    let frame = sweep(Viewport::new(1, 1).unwrap(), 2, 2, |ring: usize, step: usize| {
        Sample::facing(0, 0, 9, ring * 2 + step + 5)
    });
    assert_eq!(frame.get(0, 0), Some(';'));
}

#[test]
fn sweep_over_an_empty_grid_gives_a_blank_frame() {
    let calls = RefCell::new(0usize);
    let count = |_ring: usize, _step: usize| {
        *calls.borrow_mut() += 1;
        Sample::facing(0, 0, 9, 5)
    };
    let viewport = Viewport::new(2, 2).unwrap();
    assert_eq!(sweep(viewport, 0, 5, &count).to_text(), "  \n  \n");
    assert_eq!(sweep(viewport, 5, 0, &count).to_text(), "  \n  \n");
    assert_eq!(sweep(viewport, 0, 0, &count).to_text(), "  \n  \n");
    assert_eq!(*calls.borrow(), 0);
}
