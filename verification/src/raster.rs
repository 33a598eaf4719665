//! Rasterizing: from the samples of one frame to its picture.

use crate::frame::Frame;
use crate::sample::Sample;
use crate::viewport::Viewport;
use vstd::prelude::*;

verus! {

/// Draws the picture of `samples` on `viewport`. Each cell of the result
/// holds the shade of the nearest sample that faces the viewer and projects
/// to it, the earliest of them where several are equally near, and the blank
/// where there is none. Samples that project outside the picture are left
/// out.
pub fn rasterize(viewport: Viewport, samples: &Vec<Sample>) -> (frame: Frame)
    ensures
        frame.viewport() == viewport,
        frame.renders(samples@),
{
    let mut frame = Frame::new(viewport);
    let mut next: usize = 0;
    assert(samples@.take(0) =~= Seq::<Sample>::empty());
    while next < samples.len()
        invariant
            next <= samples.len(),
            frame.viewport() == viewport,
            frame.renders(samples@.take(next as int)),
        decreases samples.len() - next,
    {
        frame.plot(samples[next]);
        assert(samples@.take(next as int).push(samples@[next as int]) =~= samples@.take(
            next as int + 1,
        ));
        next = next + 1;
    }
    assert(samples@.take(samples.len() as int) =~= samples@);
    frame
}

/// Draws the picture of `samples` on a viewport of `width` columns and
/// `height` rows. Where either is zero there is nothing to draw on: no frame
/// is made and `None` is returned.
pub fn render(width: u16, height: u16, samples: &Vec<Sample>) -> (r: Option<Frame>)
    ensures
        r is Some <==> width > 0 && height > 0,
        r matches Some(frame) ==> frame.viewport().width() == width && frame.viewport().height()
            == height && frame.renders(samples@),
{
    match Viewport::new(width, height) {
        Some(viewport) => Some(rasterize(viewport, samples)),
        None => None,
    }
}

/// The place of the sample for step `step` of ring `ring` in a sweep of
/// `steps` steps to the ring: the sweep goes ring by ring.
pub open spec fn sweep_index(ring: int, step: int, steps: int) -> int {
    ring * steps + step
}

/// `samples` is a sweep of `project` over a grid of `rings` rings of `steps`
/// steps each: it holds, ring by ring and step by step, a sample that
/// `project` gives for each position of the grid.
pub open spec fn swept<F: Fn(usize, usize) -> Sample>(
    project: F,
    rings: usize,
    steps: usize,
    samples: Seq<Sample>,
) -> bool {
    &&& samples.len() == rings * steps
    &&& forall|ring: usize, step: usize|
        ring < rings && step < steps ==> call_ensures(
            project,
            (ring, step),
            #[trigger] samples[sweep_index(ring as int, step as int, steps as int)],
        )
}

/// Sweeps a surface and draws its picture on `viewport`. The surface is
/// sampled on a grid of `rings` by `steps` positions, outer position first;
/// `project` gives the sample of a position. The result is the picture of
/// all these samples.
pub fn sweep<F: Fn(usize, usize) -> Sample>(
    viewport: Viewport,
    rings: usize,
    steps: usize,
    project: F,
) -> (frame: Frame)
    requires
        forall|ring: usize, step: usize|
            ring < rings && step < steps ==> call_requires(project, (ring, step)),
    ensures
        frame.viewport() == viewport,
        exists|samples: Seq<Sample>| #[trigger]
            swept(project, rings, steps, samples) && frame.renders(samples),
{
    let mut frame = Frame::new(viewport);
    let ghost mut done: Seq<Sample> = Seq::empty();
    let mut ring: usize = 0;
    while ring < rings
        invariant
            ring <= rings,
            frame.viewport() == viewport,
            frame.renders(done),
            swept(project, ring, steps, done),
            forall|r: usize, s: usize| r < rings && s < steps ==> call_requires(project, (r, s)),
        decreases rings - ring,
    {
        let ghost before = done;
        let mut step: usize = 0;
        while step < steps
            invariant
                ring < rings,
                step <= steps,
                frame.viewport() == viewport,
                frame.renders(done),
                swept(project, ring, steps, before),
                done.len() == ring * steps + step,
                forall|at: int| 0 <= at < before.len() ==> done[at] == before[at],
                forall|s: usize|
                    s < step ==> call_ensures(
                        project,
                        (ring, s),
                        #[trigger] done[sweep_index(ring as int, s as int, steps as int)],
                    ),
                forall|r: usize, s: usize|
                    r < rings && s < steps ==> call_requires(project, (r, s)),
            decreases steps - step,
        {
            let sample = project(ring, step);
            frame.plot(sample);
            proof {
                done = done.push(sample);
            }
            step = step + 1;
        }
        proof {
            assert(swept(project, (ring + 1) as usize, steps, done)) by {
                assert((ring + 1) * steps == ring * steps + steps) by (nonlinear_arith);
                assert forall|r: usize, s: usize| r < ring + 1 && s < steps implies call_ensures(
                    project,
                    (r, s),
                    #[trigger] done[sweep_index(r as int, s as int, steps as int)],
                ) by {
                    if r < ring {
                        lemma_sweep_index_in_range(r as int, s as int, ring as int, steps as int);
                        assert(call_ensures(
                            project,
                            (r, s),
                            before[sweep_index(r as int, s as int, steps as int)],
                        ));
                    }
                }
            }
        }
        ring = ring + 1;
    }
    frame
}

/// A position of the first `rings` rings has its place among the first
/// `rings * steps` samples of a sweep.
proof fn lemma_sweep_index_in_range(ring: int, step: int, rings: int, steps: int)
    requires
        0 <= ring < rings,
        0 <= step < steps,
    ensures
        0 <= sweep_index(ring, step, steps) < rings * steps,
{
    assert(0 <= ring * steps + step < rings * steps) by (nonlinear_arith)
        requires
            0 <= ring < rings,
            0 <= step < steps,
    ;
}

} // verus!
