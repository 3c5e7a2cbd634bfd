use oscillator::model::{Coordinate, PathSegment};
use oscillator::path::{path_segments, reladd, DrawCommand, Position};

fn c(x: i16, y: i16) -> Coordinate {
    Coordinate { x, y }
}

fn l(a: Coordinate, b: Coordinate) -> PathSegment {
    PathSegment::line(a, b)
}

#[test]
fn reladd_modes() {
    assert_eq!(reladd(c(1, 2), &Position::Absolute, c(5, 5)), c(5, 5));
    assert_eq!(reladd(c(1, 2), &Position::Relative, c(5, 5)), c(6, 7));
    assert_eq!(reladd(c(32767, 0), &Position::Relative, c(1, 0)), c(-32768, 0));
}

#[test]
fn absolute_lines() {
    let cmds = vec![
        DrawCommand::Move(Position::Absolute, vec![c(0, 0)]),
        DrawCommand::Line(Position::Absolute, vec![c(10, 0), c(10, 10)]),
    ];
    assert_eq!(path_segments(&cmds), vec![l(c(0, 0), c(10, 0)), l(c(10, 0), c(10, 10))]);
}

#[test]
fn relative_first_move_starts_at_origin() {
    let cmds = vec![
        DrawCommand::Move(Position::Relative, vec![c(3, 4), c(1, 0), c(0, 1)]),
        DrawCommand::Line(Position::Relative, vec![c(-1, -1)]),
    ];
    assert_eq!(
        path_segments(&cmds),
        vec![l(c(3, 4), c(4, 4)), l(c(4, 4), c(4, 5)), l(c(4, 5), c(3, 4))]
    );
}

#[test]
fn close_returns_to_subpath_start() {
    let cmds = vec![
        DrawCommand::Move(Position::Absolute, vec![c(1, 1)]),
        DrawCommand::Line(Position::Absolute, vec![c(5, 1), c(5, 5)]),
        DrawCommand::Close,
        DrawCommand::Line(Position::Relative, vec![c(0, 2)]),
    ];
    assert_eq!(
        path_segments(&cmds),
        vec![
            l(c(1, 1), c(5, 1)),
            l(c(5, 1), c(5, 5)),
            l(c(5, 5), c(1, 1)),
            l(c(1, 1), c(1, 3)),
        ]
    );
}

#[test]
fn close_after_move_adds_nothing() {
    let cmds = vec![DrawCommand::Move(Position::Absolute, vec![c(7, 7)]), DrawCommand::Close];
    assert_eq!(path_segments(&cmds), vec![]);
}

#[test]
fn horizontal_and_vertical_lines() {
    let cmds = vec![
        DrawCommand::Move(Position::Absolute, vec![c(0, 0)]),
        DrawCommand::HorizontalLine(Position::Absolute, vec![c(8, -32767)]),
        DrawCommand::VerticalLine(Position::Relative, vec![c(-32767, 2)]),
    ];
    assert_eq!(
        path_segments(&cmds),
        vec![l(c(0, 0), c(8, -32767)), l(c(8, -32767), c(-32759, -32765))]
    );
}

#[test]
fn unsupported_commands_are_skipped() {
    let cmds = vec![
        DrawCommand::Move(Position::Absolute, vec![c(2, 2)]),
        DrawCommand::Other,
        DrawCommand::Line(Position::Absolute, vec![c(4, 4)]),
        DrawCommand::Move(Position::Absolute, vec![]),
    ];
    assert_eq!(path_segments(&cmds), vec![l(c(2, 2), c(4, 4))]);
}
