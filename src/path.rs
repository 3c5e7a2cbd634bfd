use vstd::prelude::*;

use crate::model::{Coordinate, PathSegment};

verus! {

/// Whether a command's coordinates replace the cursor or are offsets from it.
#[derive(Debug, Clone, Copy, PartialEq, Eq, Hash, Structural)]
pub enum Position {
    Absolute,
    Relative,
}

/// One drawing command of a path, its coordinates already mapped onto the
/// signed 16-bit lattice. A horizontal or vertical line carries full points
/// whose other axis holds the mapped origin of the drawing.
#[derive(Debug, Clone)]
pub enum DrawCommand {
    Move(Position, Vec<Coordinate>),
    Line(Position, Vec<Coordinate>),
    HorizontalLine(Position, Vec<Coordinate>),
    VerticalLine(Position, Vec<Coordinate>),
    Close,
    Other,
}

/// The point that `c` names when the cursor stands at `cur`.
pub open spec fn resolve(cur: Coordinate, pos: Position, c: Coordinate) -> Coordinate {
    match pos {
        Position::Absolute => c,
        Position::Relative => cur.plus(c),
    }
}

/// Where the cursor ends after drawing through `pts` from `start`.
pub open spec fn chain_end(pos: Position, start: Coordinate, pts: Seq<Coordinate>) -> Coordinate
    decreases pts.len(),
{
    if pts.len() == 0 {
        start
    } else {
        resolve(chain_end(pos, start, pts.drop_last()), pos, pts.last())
    }
}

/// The lines drawn through `pts` from `start`, one for each point.
pub open spec fn chain_segments(pos: Position, start: Coordinate, pts: Seq<Coordinate>) -> Seq<
    PathSegment,
>
    decreases pts.len(),
{
    if pts.len() == 0 {
        Seq::empty()
    } else {
        let p = chain_end(pos, start, pts.drop_last());
        chain_segments(pos, start, pts.drop_last()).push(
            PathSegment::Line(p, resolve(p, pos, pts.last())),
        )
    }
}

/// The segments that one command emits with the cursor at `cur` and the
/// current subpath started at `start`.
pub open spec fn command_segments(cmd: DrawCommand, cur: Coordinate, start: Coordinate) -> Seq<
    PathSegment,
> {
    match cmd {
        DrawCommand::Move(pos, pts) => {
            if pts@.len() == 0 {
                Seq::empty()
            } else {
                chain_segments(pos, resolve(cur, pos, pts@[0]), pts@.drop_first())
            }
        },
        DrawCommand::Line(pos, pts) => chain_segments(pos, cur, pts@),
        DrawCommand::HorizontalLine(pos, pts) => chain_segments(pos, cur, pts@),
        DrawCommand::VerticalLine(pos, pts) => chain_segments(pos, cur, pts@),
        DrawCommand::Close => {
            if cur != start {
                seq![PathSegment::Line(cur, start)]
            } else {
                Seq::empty()
            }
        },
        DrawCommand::Other => Seq::empty(),
    }
}

/// The cursor and the subpath start after one command.
pub open spec fn command_cursor(cmd: DrawCommand, cur: Coordinate, start: Coordinate) -> (
    Coordinate,
    Coordinate,
) {
    match cmd {
        DrawCommand::Move(pos, pts) => {
            if pts@.len() == 0 {
                (cur, start)
            } else {
                let s = resolve(cur, pos, pts@[0]);
                (chain_end(pos, s, pts@.drop_first()), s)
            }
        },
        DrawCommand::Line(pos, pts) => (chain_end(pos, cur, pts@), start),
        DrawCommand::HorizontalLine(pos, pts) => (chain_end(pos, cur, pts@), start),
        DrawCommand::VerticalLine(pos, pts) => (chain_end(pos, cur, pts@), start),
        DrawCommand::Close => (start, start),
        DrawCommand::Other => (cur, start),
    }
}

/// The cursor and the subpath start after a run of commands that began at
/// the origin.
pub open spec fn cursor_after(cmds: Seq<DrawCommand>) -> (Coordinate, Coordinate)
    decreases cmds.len(),
{
    if cmds.len() == 0 {
        (Coordinate { x: 0, y: 0 }, Coordinate { x: 0, y: 0 })
    } else {
        let (cur, start) = cursor_after(cmds.drop_last());
        command_cursor(cmds.last(), cur, start)
    }
}

/// The segments of one path: those of each command in turn.
pub open spec fn path_segments_of(cmds: Seq<DrawCommand>) -> Seq<PathSegment>
    decreases cmds.len(),
{
    if cmds.len() == 0 {
        Seq::empty()
    } else {
        let (cur, start) = cursor_after(cmds.drop_last());
        path_segments_of(cmds.drop_last()) + command_segments(cmds.last(), cur, start)
    }
}

/// Turns maybe-relative coordinates into absolute ones.
pub fn reladd(cur: Coordinate, pos: &Position, c: Coordinate) -> (r: Coordinate)
    ensures
        r == resolve(cur, *pos, c),
{
    match pos {
        Position::Absolute => c,
        Position::Relative => cur.add(c),
    }
}

/// Draws lines through `pts[from..]` starting at `start`, appending them to
/// `out`, and returns where the cursor ends.
fn extend_chain(
    out: &mut Vec<PathSegment>,
    pos: &Position,
    start: Coordinate,
    pts: &Vec<Coordinate>,
    from: usize,
) -> (end: Coordinate)
    requires
        from <= pts@.len(),
    ensures
        final(out)@ == old(out)@ + chain_segments(*pos, start, pts@.subrange(from as int, pts@.len() as int)),
        end == chain_end(*pos, start, pts@.subrange(from as int, pts@.len() as int)),
{
    let mut cp = start;
    let mut i: usize = from;
    assert(pts@.subrange(from as int, from as int) =~= Seq::<Coordinate>::empty());
    while i < pts.len()
        invariant
            from <= i <= pts@.len(),
            out@ == old(out)@ + chain_segments(*pos, start, pts@.subrange(from as int, i as int)),
            cp == chain_end(*pos, start, pts@.subrange(from as int, i as int)),
        decreases pts@.len() - i,
    {
        let ep = reladd(cp, pos, pts[i]);
        let ghost prev = out@;
        out.push(PathSegment::line(cp, ep));
        proof {
            let s = pts@.subrange(from as int, i + 1);
            assert(s.drop_last() =~= pts@.subrange(from as int, i as int));
            assert(s.last() == pts@[i as int]);
            assert(out@ =~= old(out)@ + chain_segments(*pos, start, s));
        }
        cp = ep;
        i += 1;
    }
    cp
}

/// Turns the commands of one path into its line segments. The cursor starts
/// at the origin, so the first move always sets an absolute position. A
/// move's further points draw lines in the move's own mode; a close draws a
/// line back to the subpath start unless the cursor is already there;
/// unsupported commands are passed over.
pub fn path_segments(commands: &[DrawCommand]) -> (r: Vec<PathSegment>)
    ensures
        r@ == path_segments_of(commands@),
{
    let mut out: Vec<PathSegment> = Vec::new();
    let mut cp = Coordinate::zero();
    let mut ip = Coordinate::zero();
    let mut i: usize = 0;
    while i < commands.len()
        invariant
            0 <= i <= commands@.len(),
            out@ == path_segments_of(commands@.subrange(0, i as int)),
            (cp, ip) == cursor_after(commands@.subrange(0, i as int)),
        decreases commands@.len() - i,
    {
        let ghost done = commands@.subrange(0, i as int);
        let ghost base = out@;
        proof {
            assert(commands@.subrange(0, i + 1).drop_last() =~= done);
        }
        match &commands[i] {
            DrawCommand::Move(pos, pts) => {
                if pts.len() > 0 {
                    let s = reladd(cp, pos, pts[0]);
                    assert(pts@.subrange(1, pts@.len() as int) =~= pts@.drop_first());
                    cp = extend_chain(&mut out, pos, s, pts, 1);
                    ip = s;
                }
            },
            DrawCommand::Line(pos, pts) => {
                assert(pts@.subrange(0, pts@.len() as int) =~= pts@);
                cp = extend_chain(&mut out, pos, cp, pts, 0);
            },
            DrawCommand::HorizontalLine(pos, pts) => {
                assert(pts@.subrange(0, pts@.len() as int) =~= pts@);
                cp = extend_chain(&mut out, pos, cp, pts, 0);
            },
            DrawCommand::VerticalLine(pos, pts) => {
                assert(pts@.subrange(0, pts@.len() as int) =~= pts@);
                cp = extend_chain(&mut out, pos, cp, pts, 0);
            },
            DrawCommand::Close => {
                if cp != ip {
                    out.push(PathSegment::line(cp, ip));
                    assert(out@ =~= base + seq![PathSegment::Line(cp, ip)]);
                } else {
                    assert(out@ =~= base + Seq::<PathSegment>::empty());
                }
                cp = ip;
            },
            DrawCommand::Other => {
                assert(out@ =~= base + Seq::<PathSegment>::empty());
            },
        }
        i += 1;
    }
    assert(commands@.subrange(0, commands@.len() as int) =~= commands@);
    out
}

/// A close that follows a move to a single point, with the cursor standing
/// on the subpath start, adds no segment.
pub proof fn lemma_close_after_move(cmds: Seq<DrawCommand>, m: DrawCommand)
    requires
        m is Move,
        m->Move_1@.len() == 1,
    ensures
        path_segments_of(cmds.push(m).push(DrawCommand::Close)) == path_segments_of(cmds.push(m)),
{
    let with_move = cmds.push(m);
    let all = with_move.push(DrawCommand::Close);
    assert(all.drop_last() =~= with_move);
    assert(with_move.drop_last() =~= cmds);
    let pts = m->Move_1@;
    assert(pts.drop_first() =~= Seq::<Coordinate>::empty());
    let (cur, start) = cursor_after(with_move);
    assert(cur == start);
    assert(command_segments(DrawCommand::Close, cur, start) =~= Seq::<PathSegment>::empty());
    assert(path_segments_of(all) =~= path_segments_of(with_move));
}

} // verus!
