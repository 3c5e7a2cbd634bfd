use vstd::prelude::*;

use crate::model::{absdelta, absdiff, Coordinate, PathSegment};

verus! {

/// One axis value moved one unit toward `t`.
pub open spec fn toward(v: i16, t: i16) -> i16 {
    if v < t {
        (v + 1) as i16
    } else if v > t {
        (v - 1) as i16
    } else {
        v
    }
}

/// The number of unit moves, summed over both axes, from `cur` to `end`.
pub open spec fn steps_left(cur: Coordinate, end: Coordinate) -> nat {
    (absdiff(cur.x as int, end.x as int) + absdiff(cur.y as int, end.y as int)) as nat
}

/// The points emitted by the line-drawing error walk from `cur` toward `end`,
/// with absolute run `dx`, negated absolute rise `dy` and running error `err`.
/// Each point is emitted before the step away from it; the walk stops when an
/// axis that is due to step has already reached `end`.
pub open spec fn trace(dx: int, dy: int, err: int, cur: Coordinate, end: Coordinate) -> Seq<
    Coordinate,
>
    decreases steps_left(cur, end),
{
    let e2 = 2 * err;
    let sx = e2 >= dy;
    let sy = e2 < dx;
    if (sx && cur.x == end.x) || (sy && cur.y == end.y) || !(sx || sy) {
        Seq::empty()
    } else {
        let next = Coordinate {
            x: if sx {
                toward(cur.x, end.x)
            } else {
                cur.x
            },
            y: if sy {
                toward(cur.y, end.y)
            } else {
                cur.y
            },
        };
        let nerr = err + (if sx {
            dy
        } else {
            0
        }) + (if sy {
            dx
        } else {
            0
        });
        seq![cur] + trace(dx, dy, nerr, next, end)
    }
}

/// The lattice points of the segment from `a` to `b`: the start and each
/// point up to, but not including, the end; a segment of zero length gives
/// its one point.
pub open spec fn line_points(a: Coordinate, b: Coordinate) -> Seq<Coordinate> {
    if a == b {
        seq![a]
    } else {
        let dx = absdiff(a.x as int, b.x as int);
        let dy = -absdiff(a.y as int, b.y as int);
        trace(dx, dy, dx + dy, a, b)
    }
}

/// The lattice points of one segment.
pub open spec fn segment_points(p: PathSegment) -> Seq<Coordinate> {
    match p {
        PathSegment::Line(a, b) => line_points(a, b),
    }
}

/// The lattice points of each segment in turn.
pub open spec fn points_of(segments: Seq<PathSegment>) -> Seq<Coordinate>
    decreases segments.len(),
{
    if segments.len() == 0 {
        Seq::empty()
    } else {
        points_of(segments.drop_last()) + segment_points(segments.last())
    }
}

/// A point with its axes exchanged.
pub open spec fn swapped(c: Coordinate) -> Coordinate {
    Coordinate { x: c.y, y: c.x }
}

/// The walk along one straight segment, handing out one lattice point at a
/// time.
pub struct Line {
    dx: i32,
    dy: i32,
    cur: Coordinate,
    end: Coordinate,
    err: i32,
    single: bool,
}

impl Line {
    /// The walk's state is one that the error walk can be in.
    pub closed spec fn wf(&self) -> bool {
        &&& 0 <= self.dx <= 65535
        &&& -65535 <= self.dy <= 0
        &&& 2 * self.dy <= self.err <= 2 * self.dx
        &&& self.single ==> (self.cur == self.end && self.dx == 0 && self.dy == 0 && self.err
            == 0)
    }

    /// The points that the walk has still to hand out.
    pub closed spec fn rest(&self) -> Seq<Coordinate> {
        if self.single {
            seq![self.cur]
        } else {
            trace(self.dx as int, self.dy as int, self.err as int, self.cur, self.end)
        }
    }

    /// Starts the walk from `a` to `b`.
    pub fn new(a: Coordinate, b: Coordinate) -> (r: Self)
        ensures
            r.wf(),
            r.rest() == line_points(a, b),
    {
        let dx: i32 = absdelta(a.x, b.x) as i32;
        let dy: i32 = -(absdelta(a.y, b.y) as i32);
        Line { dx, dy, cur: a, end: b, err: dx + dy, single: a == b }
    }

    /// Hands out the next point of the walk, or `None` once it is over.
    pub fn next(&mut self) -> (r: Option<Coordinate>)
        requires
            old(self).wf(),
        ensures
            final(self).wf(),
            match r {
                None => old(self).rest() == Seq::<Coordinate>::empty() && *final(self) == *old(
                    self,
                ),
                Some(c) => old(self).rest() == seq![c] + final(self).rest(),
            },
    {
        let ret = self.cur;
        if self.single {
            self.single = false;
            assert(self.rest() =~= Seq::<Coordinate>::empty());
            assert(old(self).rest() =~= seq![ret] + self.rest());
            return Some(ret);
        }
        let e2: i32 = 2 * self.err;
        let sx = e2 >= self.dy;
        let sy = e2 < self.dx;
        if (sx && self.cur.x == self.end.x) || (sy && self.cur.y == self.end.y) {
            return None;
        }
        if sx {
            self.err = self.err + self.dy;
            if self.cur.x < self.end.x {
                self.cur.x = self.cur.x + 1;
            } else {
                self.cur.x = self.cur.x - 1;
            }
        }
        if sy {
            self.err = self.err + self.dx;
            if self.cur.y < self.end.y {
                self.cur.y = self.cur.y + 1;
            } else {
                self.cur.y = self.cur.y - 1;
            }
        }
        Some(ret)
    }
}

/// The lattice points of a segment, in order from its start.
pub fn rasterize(p: PathSegment) -> (r: Vec<Coordinate>)
    ensures
        r@ == segment_points(p),
{
    match p {
        PathSegment::Line(a, b) => {
            let mut line = Line::new(a, b);
            let mut out: Vec<Coordinate> = Vec::new();
            let mut done = false;
            while !done
                invariant
                    line.wf(),
                    done ==> line.rest() == Seq::<Coordinate>::empty(),
                    out@ + line.rest() == line_points(a, b),
                decreases line.rest().len() + (if done {
                    0int
                } else {
                    1int
                }),
            {
                match line.next() {
                    None => {
                        done = true;
                    },
                    Some(c) => {
                        assert(out@.push(c) + line.rest() =~= out@ + (seq![c] + line.rest()));
                        out.push(c);
                    },
                }
            }
            assert(out@ + Seq::<Coordinate>::empty() =~= out@);
            out
        },
    }
}

/// The lattice points of each segment in turn, with nothing merged across
/// segments.
pub fn rasterize_all(segments: &[PathSegment]) -> (r: Vec<Coordinate>)
    ensures
        r@ == points_of(segments@),
{
    let mut out: Vec<Coordinate> = Vec::new();
    let mut i: usize = 0;
    while i < segments.len()
        invariant
            0 <= i <= segments@.len(),
            out@ == points_of(segments@.subrange(0, i as int)),
        decreases segments@.len() - i,
    {
        let mut pts = rasterize(segments[i]);
        assert(segments@.subrange(0, i + 1).drop_last() =~= segments@.subrange(0, i as int));
        out.append(&mut pts);
        i += 1;
    }
    assert(segments@.subrange(0, segments@.len() as int) =~= segments@);
    out
}

/// A segment of zero length rasterizes to exactly its one point.
pub proof fn lemma_degenerate_segment(a: Coordinate)
    ensures
        line_points(a, a) == seq![a],
{
}

proof fn lemma_horizontal_walk(n: int, cur: Coordinate, end: Coordinate)
    requires
        n > 0,
        cur.y == end.y,
    ensures
        trace(0, -n, -n, swapped(cur), swapped(end)) == trace(n, 0, n, cur, end).map_values(
            |c: Coordinate| swapped(c),
        ),
        forall|i: int|
            0 <= i < trace(n, 0, n, cur, end).len() ==> #[trigger] trace(n, 0, n, cur, end)[i].y
                == cur.y,
    decreases steps_left(cur, end),
{
    let h = trace(n, 0, n, cur, end);
    let v = trace(0, -n, -n, swapped(cur), swapped(end));
    if cur.x == end.x {
        assert(h =~= Seq::<Coordinate>::empty());
        assert(v =~= Seq::<Coordinate>::empty());
        assert(v =~= h.map_values(|c: Coordinate| swapped(c)));
    } else {
        let next = Coordinate { x: toward(cur.x, end.x), y: cur.y };
        lemma_horizontal_walk(n, next, end);
        assert(swapped(next) == Coordinate { x: swapped(cur).x, y: toward(swapped(cur).y, swapped(end).y) });
        assert(h == seq![cur] + trace(n, 0, n, next, end));
        assert(v == seq![swapped(cur)] + trace(0, -n, -n, swapped(next), swapped(end)));
        assert(v =~= h.map_values(|c: Coordinate| swapped(c)));
        assert forall|i: int| 0 <= i < h.len() implies #[trigger] h[i].y == cur.y by {
            if i > 0 {
                assert(h[i] == trace(n, 0, n, next, end)[i - 1]);
            }
        }
    }
}

/// A horizontal segment and its mirror image across the diagonal, a vertical
/// segment of the same length, rasterize to mirrored point sequences of the
/// same length: only x changes along the one and only y along the other.
pub proof fn lemma_axis_symmetry(a: Coordinate, b: Coordinate)
    requires
        a.y == b.y,
    ensures
        line_points(swapped(a), swapped(b)) == line_points(a, b).map_values(
            |c: Coordinate| swapped(c),
        ),
        line_points(swapped(a), swapped(b)).len() == line_points(a, b).len(),
        forall|i: int|
            0 <= i < line_points(a, b).len() ==> #[trigger] line_points(a, b)[i].y == a.y,
        forall|i: int|
            0 <= i < line_points(a, b).len() ==> #[trigger] line_points(swapped(a), swapped(b))[i].x
                == a.y,
{
    if a == b {
        assert(line_points(swapped(a), swapped(b)) =~= line_points(a, b).map_values(
            |c: Coordinate| swapped(c),
        ));
    } else {
        let n = absdiff(a.x as int, b.x as int);
        lemma_horizontal_walk(n, a, b);
    }
}

} // verus!
