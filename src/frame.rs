use vstd::prelude::*;

use crate::model::{dedup_with, deduplicated, Coordinate, PathSegment};
use crate::raster::{points_of, rasterize_all};

verus! {

/// The rate at which sample pairs are played, per second.
pub const SAMPLE_RATE: u32 = 44100;

/// The factor between the full signed 16-bit range and the coarse lattice on
/// which drawings are rasterized.
pub const SCALE: u16 = 255;

/// Why a drawing could not be turned into a frame.
#[derive(Debug, Clone, Copy, PartialEq, Eq, Hash, Structural)]
pub enum FrameError {
    /// Rasterizing the drawing gave no point, so no repetition factor exists.
    NoPoints,
}

/// A 16-bit value negated with wraparound: the most negative value stays put.
pub open spec fn negated(v: i16) -> i16 {
    if v == -32768 {
        v
    } else {
        (-v) as i16
    }
}

/// The sample pair (left = x, right = y) for one lattice point: scaled back up
/// to the full range, each axis negated when asked.
pub open spec fn sample_of(c: Coordinate, flip_x: bool, flip_y: bool) -> (i16, i16) {
    let p = c.grown(SCALE);
    (
        if flip_x {
            negated(p.x)
        } else {
            p.x
        },
        if flip_y {
            negated(p.y)
        } else {
            p.y
        },
    )
}

/// The samples of one frame: each point's pair `reps` times, point after point.
pub open spec fn frame_of(points: Seq<Coordinate>, reps: nat, flip_x: bool, flip_y: bool) -> Seq<
    (i16, i16),
>
    decreases points.len(),
{
    if points.len() == 0 {
        Seq::empty()
    } else {
        frame_of(points.drop_last(), reps, flip_x, flip_y) + Seq::new(
            reps,
            |i: int| sample_of(points.last(), flip_x, flip_y),
        )
    }
}

/// The segments, each shrunk onto the coarse lattice.
pub open spec fn shrunk_all(segments: Seq<PathSegment>) -> Seq<PathSegment> {
    segments.map_values(|s: PathSegment| s.shrunk(SCALE))
}

/// The segments deduplicated with the given tolerance, or untouched with none.
pub open spec fn dedup_opt(segments: Seq<PathSegment>, fuzziness: Option<u16>) -> Seq<PathSegment> {
    match fuzziness {
        None => segments,
        Some(f) => deduplicated(segments, f),
    }
}

/// The lattice points of a drawing: shrunk, deduplicated, rasterized.
pub open spec fn drawing_points(segments: Seq<PathSegment>, fuzziness: Option<u16>) -> Seq<
    Coordinate,
> {
    points_of(dedup_opt(shrunk_all(segments), fuzziness))
}

fn negate(v: i16) -> (r: i16)
    ensures
        r == negated(v),
{
    if v == i16::MIN {
        v
    } else {
        -v
    }
}

/// The sample pair for one lattice point.
pub fn sample(c: Coordinate, flip_x: bool, flip_y: bool) -> (r: (i16, i16))
    ensures
        r == sample_of(c, flip_x, flip_y),
{
    let p = c.mul(SCALE);
    let x = if flip_x {
        negate(p.x)
    } else {
        p.x
    };
    let y = if flip_y {
        negate(p.y)
    } else {
        p.y
    };
    (x, y)
}

/// The number of samples in one frame at the given frame rate, or `None` for
/// a frame rate of zero.
pub fn samples_per_frame(sample_rate: u32, frame_rate: u32) -> (r: Option<u32>)
    ensures
        frame_rate == 0 ==> r is None,
        frame_rate != 0 ==> r == Some((sample_rate / frame_rate) as u32),
{
    if frame_rate == 0 {
        None
    } else {
        Some(sample_rate / frame_rate)
    }
}

/// Stretches the points of a drawing over one frame: each point's sample pair
/// is repeated `samples_per_frame / points.len()` times, the remainder being
/// dropped. A drawing without points cannot fill a frame.
pub fn render_frame(points: &[Coordinate], samples_per_frame: u32, flip_x: bool, flip_y: bool) -> (r:
    Result<Vec<(i16, i16)>, FrameError>)
    ensures
        match r {
            Err(e) => points@.len() == 0 && e == FrameError::NoPoints,
            Ok(v) => points@.len() > 0 && v@ == frame_of(
                points@,
                (samples_per_frame as nat / points@.len()) as nat,
                flip_x,
                flip_y,
            ),
        },
{
    if points.len() == 0 {
        return Err(FrameError::NoPoints);
    }
    let reps: u32 = if points.len() > samples_per_frame as usize {
        0
    } else {
        samples_per_frame / (points.len() as u32)
    };
    proof {
        if points@.len() > samples_per_frame {
            assert(samples_per_frame as nat / points@.len() == 0) by (nonlinear_arith)
                requires
                    0 <= samples_per_frame < points@.len(),
            ;
        }
    }
    let ghost n = (samples_per_frame as nat / points@.len()) as nat;
    let mut out: Vec<(i16, i16)> = Vec::new();
    let mut i: usize = 0;
    assert(points@.subrange(0, 0) =~= Seq::<Coordinate>::empty());
    while i < points.len()
        invariant
            0 <= i <= points@.len(),
            reps == n,
            out@ == frame_of(points@.subrange(0, i as int), n, flip_x, flip_y),
        decreases points@.len() - i,
    {
        let s = sample(points[i], flip_x, flip_y);
        let ghost base = out@;
        let mut k: u32 = 0;
        while k < reps
            invariant
                0 <= k <= reps,
                reps == n,
                s == sample_of(points@[i as int], flip_x, flip_y),
                out@ == base + Seq::new(k as nat, |j: int| s),
            decreases reps - k,
        {
            out.push(s);
            assert(out@ =~= base + Seq::new((k + 1) as nat, |j: int| s));
            k += 1;
        }
        proof {
            let pre = points@.subrange(0, i + 1);
            assert(pre.drop_last() =~= points@.subrange(0, i as int));
            assert(Seq::new(reps as nat, |j: int| s) =~= Seq::new(
                n,
                |j: int| sample_of(pre.last(), flip_x, flip_y),
            ));
        }
        i += 1;
    }
    assert(points@.subrange(0, points@.len() as int) =~= points@);
    Ok(out)
}

/// Shrinks every segment onto the coarse lattice.
pub fn shrink_segments(segments: &[PathSegment]) -> (r: Vec<PathSegment>)
    ensures
        r@ == shrunk_all(segments@),
{
    let mut out: Vec<PathSegment> = Vec::new();
    let mut i: usize = 0;
    while i < segments.len()
        invariant
            0 <= i <= segments@.len(),
            out@ == shrunk_all(segments@.subrange(0, i as int)),
        decreases segments@.len() - i,
    {
        out.push(segments[i].div(SCALE));
        assert(out@ =~= shrunk_all(segments@.subrange(0, i + 1)));
        i += 1;
    }
    assert(segments@.subrange(0, segments@.len() as int) =~= segments@);
    out
}

/// Renders the segments of one drawing into the samples of one frame: they
/// are shrunk onto the coarse lattice, deduplicated when a tolerance is
/// given, rasterized, and stretched over the frame.
pub fn render_drawing(
    segments: &[PathSegment],
    fuzziness: Option<u16>,
    samples_per_frame: u32,
    flip_x: bool,
    flip_y: bool,
) -> (r: Result<Vec<(i16, i16)>, FrameError>)
    ensures
        match r {
            Err(e) => drawing_points(segments@, fuzziness).len() == 0 && e == FrameError::NoPoints,
            Ok(v) => {
                let pts = drawing_points(segments@, fuzziness);
                pts.len() > 0 && v@ == frame_of(
                    pts,
                    (samples_per_frame as nat / pts.len()) as nat,
                    flip_x,
                    flip_y,
                )
            },
        },
{
    let shrunk = shrink_segments(segments);
    let kept = dedup_with(shrunk, fuzziness);
    let pixels = rasterize_all(kept.as_slice());
    render_frame(pixels.as_slice(), samples_per_frame, flip_x, flip_y)
}

proof fn lemma_frame_len(points: Seq<Coordinate>, reps: nat, flip_x: bool, flip_y: bool)
    ensures
        frame_of(points, reps, flip_x, flip_y).len() == points.len() * reps,
    decreases points.len(),
{
    if points.len() > 0 {
        lemma_frame_len(points.drop_last(), reps, flip_x, flip_y);
        assert((points.len() - 1) * reps + reps == points.len() * reps) by (nonlinear_arith);
    }
}

/// For `P` points and a budget of `S` samples a frame holds exactly
/// `P * (S / P)` sample pairs, short of `S` by the remainder of the division.
pub proof fn lemma_frame_length(
    points: Seq<Coordinate>,
    samples_per_frame: u32,
    flip_x: bool,
    flip_y: bool,
)
    requires
        points.len() > 0,
    ensures
        frame_of(points, (samples_per_frame as nat / points.len()) as nat, flip_x, flip_y).len()
            == points.len() * (samples_per_frame as nat / points.len()),
{
    lemma_frame_len(points, (samples_per_frame as nat / points.len()) as nat, flip_x, flip_y);
}

} // verus!
