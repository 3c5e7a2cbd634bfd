use oscillator::model::{absdelta, dedup_segments, dedup_with, Coordinate, PathSegment};

fn c(x: i16, y: i16) -> Coordinate {
    Coordinate { x, y }
}

fn l(a: (i16, i16), b: (i16, i16)) -> PathSegment {
    PathSegment::line(Coordinate::from(a), Coordinate::from(b))
}

#[test]
fn zero_is_origin() {
    assert_eq!(Coordinate::zero(), c(0, 0));
}

#[test]
fn add_wraps_around() {
    assert_eq!(c(32767, -32768).add(c(1, -1)), c(-32768, 32767));
    assert_eq!(c(3, -4).add(c(10, 2)), c(13, -2));
}

#[test]
fn mul_wraps_around() {
    assert_eq!(c(2, -3).mul(255), c(510, -765));
    assert_eq!(c(200, -200).mul(255), c(-14536, 14536));
}

#[test]
fn div_truncates_toward_zero() {
    assert_eq!(c(7, -7).div(2), c(3, -3));
    assert_eq!(c(-32768, 32767).div(255), c(-128, 128));
}

#[test]
fn segment_scaling() {
    assert_eq!(l((510, -765), (0, 1)).div(255), l((2, -3), (0, 0)));
    assert_eq!(l((2, -3), (0, 1)).mul(255), l((510, -765), (0, 255)));
}

#[test]
fn scale_round_trip() {
    assert_eq!(c(510, -765).div(255).mul(255), c(510, -765));
    assert_eq!(c(300, -300).div(255).mul(255), c(255, -255));
    assert_eq!(c(-32768, 32767).div(255).mul(255), c(-32640, 32640));
}

#[test]
fn absdelta_covers_full_range() {
    assert_eq!(absdelta(-32768, 32767), 65535);
    assert_eq!(absdelta(32767, -32768), 65535);
    assert_eq!(absdelta(5, 9), 4);
    assert_eq!(absdelta(9, 5), 4);
}

#[test]
fn zero_fuzziness_collapses_identical() {
    let segs = vec![l((0, 0), (5, 5)), l((0, 0), (5, 5))];
    assert_eq!(dedup_segments(&segs, 0), vec![l((0, 0), (5, 5))]);
}

#[test]
fn zero_fuzziness_collapses_reversed() {
    let segs = vec![l((0, 0), (5, 5)), l((5, 5), (0, 0))];
    assert_eq!(dedup_segments(&segs, 0), vec![l((0, 0), (5, 5))]);
}

#[test]
fn zero_fuzziness_keeps_one_unit_difference() {
    for other in [l((1, 0), (5, 5)), l((0, 1), (5, 5)), l((0, 0), (6, 5)), l((0, 0), (5, 4))] {
        let segs = vec![l((0, 0), (5, 5)), other];
        assert_eq!(dedup_segments(&segs, 0), segs);
    }
}

#[test]
fn fuzziness_tolerates_small_offsets() {
    let segs = vec![l((0, 0), (5, 5)), l((1, -1), (6, 4)), l((7, 4), (2, 1))];
    assert_eq!(dedup_segments(&segs, 1), vec![l((0, 0), (5, 5)), l((7, 4), (2, 1))]);
}

#[test]
fn dedup_compares_with_dropped_segments_too() {
    let segs = vec![l((0, 0), (10, 0)), l((1, 0), (11, 0)), l((2, 0), (12, 0))];
    assert_eq!(dedup_segments(&segs, 1), vec![l((0, 0), (10, 0))]);
}

#[test]
fn dedup_of_empty_list() {
    assert_eq!(dedup_segments(&[], 3), vec![]);
}

#[test]
fn no_fuzziness_is_no_op() {
    let segs = vec![l((0, 0), (5, 5)), l((0, 0), (5, 5)), l((5, 5), (0, 0))];
    assert_eq!(dedup_with(segs.clone(), None), segs);
    assert_eq!(dedup_with(segs, Some(0)), vec![l((0, 0), (5, 5))]);
}
