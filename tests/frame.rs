use oscillator::frame::{
    render_drawing, render_frame, sample, samples_per_frame, FrameError, SAMPLE_RATE, SCALE,
};
use oscillator::model::{Coordinate, PathSegment};

fn c(x: i16, y: i16) -> Coordinate {
    Coordinate { x, y }
}

#[test]
fn frame_budget() {
    assert_eq!(samples_per_frame(SAMPLE_RATE, 23), Some(1917));
    assert_eq!(samples_per_frame(SAMPLE_RATE, 0), None);
}

#[test]
fn sample_scales_and_flips() {
    assert_eq!(sample(c(1, -1), false, false), (255, -255));
    assert_eq!(sample(c(1, -1), true, false), (-255, -255));
    assert_eq!(sample(c(1, -1), false, true), (255, 255));
    assert_eq!(sample(c(-128, 128), true, true), (32640, -32640));
    assert_eq!(SCALE, u16::MAX / 256);
}

#[test]
fn frame_repeats_each_point() {
    let pts = vec![c(1, 0), c(0, 1), c(-1, -1)];
    let frame = render_frame(&pts, 10, false, false).unwrap();
    assert_eq!(frame.len(), 3 * (10 / 3));
    assert_eq!(
        frame,
        vec![
            (255, 0),
            (255, 0),
            (255, 0),
            (0, 255),
            (0, 255),
            (0, 255),
            (-255, -255),
            (-255, -255),
            (-255, -255),
        ]
    );
}

#[test]
fn frame_length_is_points_times_repetitions() {
    let pts: Vec<Coordinate> = (0..7).map(|i| c(i, i)).collect();
    for s in [0u32, 6, 7, 20, 1917, 44100] {
        let frame = render_frame(&pts, s, false, false).unwrap();
        assert_eq!(frame.len() as u32, 7 * (s / 7));
    }
}

#[test]
fn empty_drawing_cannot_fill_a_frame() {
    assert_eq!(render_frame(&[], 1917, false, false), Err(FrameError::NoPoints));
    assert_eq!(render_drawing(&[], None, 1917, false, false), Err(FrameError::NoPoints));
}

#[test]
fn drawing_pipeline() {
    let segs = vec![
        PathSegment::line(c(0, 0), c(510, 0)),
        PathSegment::line(c(510, 0), c(0, 0)),
    ];
    let frame = render_drawing(&segs, Some(0), 4, false, true).unwrap();
    assert_eq!(frame, vec![(0, 0), (0, 0), (255, 0), (255, 0)]);
    let frame = render_drawing(&segs, None, 8, false, false).unwrap();
    assert_eq!(
        frame,
        vec![(0, 0), (0, 0), (255, 0), (255, 0), (510, 0), (510, 0), (255, 0), (255, 0)]
    );
}
