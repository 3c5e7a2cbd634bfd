use vstd::prelude::*;
use vstd::arithmetic::div_mod::{
    lemma_fundamental_div_mod, lemma_fundamental_div_mod_converse_mod, lemma_mod_multiples_vanish,
};

verus! {

/// The value of `v` read back as a signed 16-bit integer after dropping all
/// but its low 16 bits (two's complement wraparound).
pub open spec fn wrap16(v: int) -> int {
    let m = v % 65536;
    if m >= 32768 {
        m - 65536
    } else {
        m
    }
}

/// Division that truncates toward zero, for a positive divisor.
pub open spec fn trunc_div(a: int, k: int) -> int {
    if a >= 0 {
        a / k
    } else {
        -((-a) / k)
    }
}

/// The magnitude of an integer.
pub open spec fn magnitude(a: int) -> int {
    if a >= 0 {
        a
    } else {
        -a
    }
}

/// The unsigned distance between two integers.
pub open spec fn absdiff(a: int, b: int) -> int {
    if a < b {
        b - a
    } else {
        a - b
    }
}

/// Wrapping leaves a value that already fits in 16 signed bits alone.
proof fn lemma_wrap16_fits(v: int)
    requires
        -32768 <= v <= 32767,
    ensures
        wrap16(v) == v,
{
    if v >= 0 {
        lemma_fundamental_div_mod_converse_mod(v, 65536, 0, v);
    } else {
        lemma_fundamental_div_mod_converse_mod(v, 65536, -1, v + 65536);
    }
}

/// A point of the signed 16-bit lattice.
#[derive(Debug, Clone, Copy, PartialEq, Eq, Hash, Structural)]
pub struct Coordinate {
    pub x: i16,
    pub y: i16,
}

impl Coordinate {
    /// The sum of two points, each axis wrapping around on overflow.
    pub open spec fn plus(self, rhs: Coordinate) -> Coordinate {
        Coordinate { x: wrap16(self.x + rhs.x) as i16, y: wrap16(self.y + rhs.y) as i16 }
    }

    /// Each axis multiplied by `k` in a wider type and narrowed back with wraparound.
    pub open spec fn grown(self, k: u16) -> Coordinate {
        Coordinate { x: wrap16(self.x * k) as i16, y: wrap16(self.y * k) as i16 }
    }

    /// Each axis divided by `k`, truncating toward zero.
    pub open spec fn shrunk(self, k: u16) -> Coordinate {
        Coordinate { x: trunc_div(self.x as int, k as int) as i16, y: trunc_div(self.y as int, k as int) as i16 }
    }

    /// The origin.
    pub fn zero() -> (r: Self)
        ensures
            r.x == 0 && r.y == 0,
    {
        Coordinate { x: 0, y: 0 }
    }

    /// Adds two points axis by axis, wrapping around on overflow.
    pub fn add(self, rhs: Self) -> (r: Self)
        ensures
            r == self.plus(rhs),
    {
        let r = Coordinate { x: self.x.wrapping_add(rhs.x), y: self.y.wrapping_add(rhs.y) };
        proof {
            lemma_wrapping_add_is_wrap16(self.x, rhs.x);
            lemma_wrapping_add_is_wrap16(self.y, rhs.y);
        }
        r
    }

    /// Multiplies both axes by `k`, wrapping around on overflow.
    pub fn mul(self, k: u16) -> (r: Self)
        ensures
            r == self.grown(k),
    {
        Coordinate { x: grow_axis(self.x, k), y: grow_axis(self.y, k) }
    }

    /// Divides both axes by `k`, truncating toward zero.
    pub fn div(self, k: u16) -> (r: Self)
        requires
            k > 0,
        ensures
            r == self.shrunk(k),
    {
        Coordinate { x: shrink_axis(self.x, k), y: shrink_axis(self.y, k) }
    }
}

impl From<(i16, i16)> for Coordinate {
    fn from(t: (i16, i16)) -> (r: Coordinate) {
        Coordinate { x: t.0, y: t.1 }
    }
}

impl vstd::std_specs::convert::FromSpecImpl<(i16, i16)> for Coordinate {
    open spec fn obeys_from_spec() -> bool {
        true
    }

    open spec fn from_spec(t: (i16, i16)) -> Coordinate {
        Coordinate { x: t.0, y: t.1 }
    }
}

proof fn lemma_wrapping_add_is_wrap16(a: i16, b: i16)
    ensures
        a.wrapping_add(b) as int == wrap16(a + b),
{
    let s = a + b;
    if s > 32767 {
        lemma_fundamental_div_mod_converse_mod(s, 65536, 0, s);
    } else if s < -32768 {
        lemma_fundamental_div_mod_converse_mod(s, 65536, -1, s + 65536);
    } else {
        lemma_wrap16_fits(s);
    }
}

/// One axis multiplied by `k`: the product is formed in 64 bits and its low
/// 16 bits are kept.
fn grow_axis(v: i16, k: u16) -> (r: i16)
    ensures
        r == wrap16(v * k),
{
    assert(-2147483648 <= v * k <= 2147483647) by (nonlinear_arith)
        requires
            -32768 <= v <= 32767,
            0 <= k <= 65535,
    ;
    let p: i64 = v as i64 * k as i64;
    let q: u64 = (p + 2147483648) as u64;
    let m: u64 = q % 65536;
    proof {
        lemma_mod_multiples_vanish(32768, p as int, 65536);
        assert(m == (p as int) % 65536);
    }
    if m >= 32768 {
        (m as i64 - 65536) as i16
    } else {
        m as i16
    }
}

/// One axis divided by `k`, truncating toward zero.
fn shrink_axis(v: i16, k: u16) -> (r: i16)
    requires
        k > 0,
    ensures
        r == trunc_div(v as int, k as int),
{
    if v >= 0 {
        let q: u16 = (v as u16) / k;
        assert(q <= v) by (nonlinear_arith)
            requires
                q == (v as int) / (k as int),
                v >= 0,
                k >= 1,
        ;
        q as i16
    } else {
        let m: u32 = (0 - v as i32) as u32;
        let q: u32 = m / (k as u32);
        assert(q <= m) by (nonlinear_arith)
            requires
                q == (m as int) / (k as int),
                m >= 0,
                k >= 1,
        ;
        (0 - q as i32) as i16
    }
}

/// Shrinking a point by `k` and growing it back by `k` truncates each axis
/// toward zero to a multiple of `k`, and gives back every axis whose
/// magnitude `k` divides.
pub proof fn lemma_scale_round_trip(c: Coordinate, k: u16)
    requires
        k > 0,
    ensures
        c.shrunk(k).grown(k).x == trunc_div(c.x as int, k as int) * k,
        c.shrunk(k).grown(k).y == trunc_div(c.y as int, k as int) * k,
        magnitude(c.x as int) % (k as int) == 0 ==> c.shrunk(k).grown(k).x == c.x,
        magnitude(c.y as int) % (k as int) == 0 ==> c.shrunk(k).grown(k).y == c.y,
{
    lemma_axis_round_trip(c.x as int, k as int);
    lemma_axis_round_trip(c.y as int, k as int);
}

proof fn lemma_axis_round_trip(v: int, k: int)
    requires
        -32768 <= v <= 32767,
        1 <= k <= 65535,
    ensures
        -32768 <= trunc_div(v, k) <= 32767,
        wrap16(trunc_div(v, k) * k) == trunc_div(v, k) * k,
        magnitude(v) % k == 0 ==> trunc_div(v, k) * k == v,
{
    let a = magnitude(v);
    lemma_fundamental_div_mod(a, k);
    assert(0 <= a / k <= a) by (nonlinear_arith)
        requires
            a == k * (a / k) + (a % k),
            0 <= a % k < k,
            a >= 0,
            k >= 1,
    ;
    assert(0 <= (a / k) * k <= a) by (nonlinear_arith)
        requires
            a == k * (a / k) + (a % k),
            0 <= a % k < k,
            a / k >= 0,
    ;
    assert(trunc_div(v, k) * k == if v >= 0 { (a / k) * k } else { -((a / k) * k) }) by (nonlinear_arith)
        requires
            trunc_div(v, k) == if v >= 0 { a / k } else { -(a / k) },
    ;
    assert(a % k == 0 ==> (a / k) * k == a) by (nonlinear_arith)
        requires
            a == k * (a / k) + (a % k),
    ;
    lemma_wrap16_fits(trunc_div(v, k) * k);
}


/// A piece of a drawing. Straight lines are the only geometry so far.
#[derive(Debug, Clone, Copy, PartialEq, Eq, Hash, Structural)]
pub enum PathSegment {
    Line(Coordinate, Coordinate),
}

impl PathSegment {
    /// Both endpoints multiplied by `k`.
    pub open spec fn grown(self, k: u16) -> PathSegment {
        match self {
            PathSegment::Line(a, b) => PathSegment::Line(a.grown(k), b.grown(k)),
        }
    }

    /// Both endpoints divided by `k`.
    pub open spec fn shrunk(self, k: u16) -> PathSegment {
        match self {
            PathSegment::Line(a, b) => PathSegment::Line(a.shrunk(k), b.shrunk(k)),
        }
    }

    /// The straight line from `a` to `b`.
    pub fn line(a: Coordinate, b: Coordinate) -> (r: Self)
        ensures
            r == PathSegment::Line(a, b),
    {
        PathSegment::Line(a, b)
    }

    /// Multiplies both endpoints by `k`, wrapping around on overflow.
    pub fn mul(self, k: u16) -> (r: Self)
        ensures
            r == self.grown(k),
    {
        match self {
            PathSegment::Line(a, b) => PathSegment::Line(a.mul(k), b.mul(k)),
        }
    }

    /// Divides both endpoints by `k`, truncating toward zero.
    pub fn div(self, k: u16) -> (r: Self)
        requires
            k > 0,
        ensures
            r == self.shrunk(k),
    {
        match self {
            PathSegment::Line(a, b) => PathSegment::Line(a.div(k), b.div(k)),
        }
    }
}

/// The magnitude of `a - b`, computed without signed overflow.
pub fn absdelta(a: i16, b: i16) -> (r: u16)
    ensures
        r == absdiff(a as int, b as int),
{
    if a < b {
        (b as i32 - a as i32) as u16
    } else {
        (a as i32 - b as i32) as u16
    }
}

/// The Chebyshev distance between two points.
pub open spec fn distance(a: Coordinate, b: Coordinate) -> int {
    let dx = absdiff(a.x as int, b.x as int);
    let dy = absdiff(a.y as int, b.y as int);
    if dx >= dy {
        dx
    } else {
        dy
    }
}

/// Whether `s` lies within `fuzziness` of `t`, endpoint by endpoint, traced
/// in the same or in the opposite direction.
pub open spec fn duplicates(s: PathSegment, t: PathSegment, fuzziness: u16) -> bool {
    match s {
        PathSegment::Line(a1, b1) => match t {
            PathSegment::Line(a2, b2) => (distance(a1, a2) <= fuzziness && distance(b1, b2)
                <= fuzziness) || (distance(a1, b2) <= fuzziness && distance(a2, b1) <= fuzziness),
        },
    }
}

/// Whether some segment before index `i` is duplicated by the one at `i`.
pub open spec fn has_earlier_duplicate(s: Seq<PathSegment>, i: int, fuzziness: u16) -> bool {
    exists|j: int| 0 <= j < i && duplicates(s[i], #[trigger] s[j], fuzziness)
}

/// The segments among the first `n` of `s` that duplicate no segment before
/// them, in their order.
pub open spec fn dedup_prefix(s: Seq<PathSegment>, n: nat, fuzziness: u16) -> Seq<PathSegment>
    decreases n,
{
    if n == 0 {
        Seq::empty()
    } else {
        let kept = dedup_prefix(s, (n - 1) as nat, fuzziness);
        if has_earlier_duplicate(s, n - 1, fuzziness) {
            kept
        } else {
            kept.push(s[n - 1])
        }
    }
}

/// The segments of `s` that duplicate no segment before them, in their order.
pub open spec fn deduplicated(s: Seq<PathSegment>, fuzziness: u16) -> Seq<PathSegment> {
    dedup_prefix(s, s.len(), fuzziness)
}

fn delta(a: &Coordinate, b: &Coordinate) -> (r: u16)
    ensures
        r == distance(*a, *b),
{
    let dx = absdelta(a.x, b.x);
    let dy = absdelta(a.y, b.y);
    if dx >= dy {
        dx
    } else {
        dy
    }
}

fn is_duplicate(s: &PathSegment, t: &PathSegment, fuzziness: u16) -> (r: bool)
    ensures
        r == duplicates(*s, *t, fuzziness),
{
    match (s, t) {
        (PathSegment::Line(a1, b1), PathSegment::Line(a2, b2)) => (delta(a1, a2) <= fuzziness
            && delta(b1, b2) <= fuzziness) || (delta(a1, b2) <= fuzziness && delta(a2, b1)
            <= fuzziness),
    }
}

/// Drops every segment that lies within `fuzziness` of an earlier segment of
/// the input (in either direction), keeping the others in their order.
pub fn dedup_segments(segments: &[PathSegment], fuzziness: u16) -> (r: Vec<PathSegment>)
    ensures
        r@ == deduplicated(segments@, fuzziness),
{
    let mut result: Vec<PathSegment> = Vec::new();
    let mut i: usize = 0;
    while i < segments.len()
        invariant
            0 <= i <= segments@.len(),
            result@ == dedup_prefix(segments@, i as nat, fuzziness),
        decreases segments@.len() - i,
    {
        let current = segments[i];
        let mut duplicate = false;
        let mut j: usize = 0;
        while j < i
            invariant
                0 <= j <= i < segments@.len(),
                current == segments@[i as int],
                duplicate == exists|m: int|
                    0 <= m < j && duplicates(segments@[i as int], #[trigger] segments@[m], fuzziness),
            decreases i - j,
        {
            if is_duplicate(&current, &segments[j], fuzziness) {
                duplicate = true;
            }
            j += 1;
        }
        if !duplicate {
            result.push(current);
        }
        i += 1;
    }
    result
}

/// Deduplicates with the given tolerance; with none given the segments come
/// back untouched, which differs from a tolerance of zero.
pub fn dedup_with(segments: Vec<PathSegment>, fuzziness: Option<u16>) -> (r: Vec<PathSegment>)
    ensures
        match fuzziness {
            None => r@ == segments@,
            Some(f) => r@ == deduplicated(segments@, f),
        },
{
    match fuzziness {
        None => segments,
        Some(f) => dedup_segments(segments.as_slice(), f),
    }
}

proof fn lemma_dedup_pair(s: Seq<PathSegment>, fuzziness: u16)
    requires
        s.len() == 2,
    ensures
        deduplicated(s, fuzziness) == if duplicates(s[1], s[0], fuzziness) {
            seq![s[0]]
        } else {
            seq![s[0], s[1]]
        },
{
    assert(!has_earlier_duplicate(s, 0, fuzziness));
    assert(dedup_prefix(s, 0, fuzziness) =~= Seq::<PathSegment>::empty());
    assert(dedup_prefix(s, 0, fuzziness).push(s[0]) =~= seq![s[0]]);
    assert(dedup_prefix(s, 1, fuzziness) =~= seq![s[0]]);
    if duplicates(s[1], s[0], fuzziness) {
        assert(has_earlier_duplicate(s, 1, fuzziness));
    } else {
        assert(!has_earlier_duplicate(s, 1, fuzziness));
        assert(dedup_prefix(s, 2, fuzziness) =~= seq![s[0], s[1]]);
    }
}

/// With a tolerance of zero, a second segment collapses into the first
/// exactly when it has the same endpoints in the same or the opposite
/// direction; a difference of one unit on any axis keeps both.
pub proof fn lemma_zero_fuzziness_pair(a: Coordinate, b: Coordinate, c: Coordinate, d: Coordinate)
    ensures
        deduplicated(seq![PathSegment::Line(a, b), PathSegment::Line(c, d)], 0) == if (c == a
            && d == b) || (c == b && d == a) {
            seq![PathSegment::Line(a, b)]
        } else {
            seq![PathSegment::Line(a, b), PathSegment::Line(c, d)]
        },
{
    let s = seq![PathSegment::Line(a, b), PathSegment::Line(c, d)];
    lemma_dedup_pair(s, 0);
}

/// A segment and the same segment traced backwards are duplicates of each
/// other under a tolerance of zero: only the first of the two is kept.
pub proof fn lemma_reversed_is_duplicate(a: Coordinate, b: Coordinate)
    ensures
        duplicates(PathSegment::Line(b, a), PathSegment::Line(a, b), 0),
        duplicates(PathSegment::Line(a, b), PathSegment::Line(b, a), 0),
        deduplicated(seq![PathSegment::Line(a, b), PathSegment::Line(b, a)], 0) == seq![
            PathSegment::Line(a, b),
        ],
{
    lemma_zero_fuzziness_pair(a, b, b, a);
}

} // verus!
