use raytracer::geometry::lines::{bresenham, clip_step, pixels_from_points, ClipEdge, ClipStep, Line2, Line3, LinePlaneIntersection};
use raytracer::geometry::points::compute_outcode;
use raytracer::primitives::rect::RectAxes;
use raytracer::rasterizing::{combine_outlines, rasterize_pixels};

#[test]
fn test_bresenham() {
    let pixels = bresenham((0, 0), (10, 0));
    assert_eq!(pixels.len(), 11);
    for i in 0..11 as usize {
        assert_eq!(pixels[i], [i, 0]);
    }
}

#[test]
fn bresenham_walks_from_start_to_end() {
    let pixels = bresenham((5, 6), (0, 0));
    assert_eq!(pixels.len(), 7);
    assert_eq!(pixels[0], [5, 6]);
    assert_eq!(pixels[6], [0, 0]);
    let diagonal = bresenham((0, 0), (3, 3));
    assert_eq!(diagonal, vec![[0, 0], [1, 1], [2, 2], [3, 3]]);
}

#[test]
fn pixels_from_points_casts_coordinates() {
    let pixels = pixels_from_points(&vec![(2, 3), (4, 5)]);
    assert_eq!(pixels, vec![[2, 3], [4, 5]]);
}

#[test]
fn outcodes() {
    assert_eq!(compute_outcode(false, false, false, false), 0);
    assert_eq!(compute_outcode(true, false, false, false), 1);
    assert_eq!(compute_outcode(false, true, false, false), 2);
    assert_eq!(compute_outcode(false, false, true, false), 4);
    assert_eq!(compute_outcode(false, false, false, true), 8);
    assert_eq!(compute_outcode(true, false, true, false), 5);
    assert_eq!(compute_outcode(false, true, false, true), 10);
}

#[test]
fn clip_steps() {
    assert_eq!(clip_step(0, 0), ClipStep::Accept);
    assert_eq!(clip_step(5, 4), ClipStep::Reject);
    // Bottom-left start (outcode 5) against an inside end: the start moves to the bottom edge first.
    assert_eq!(clip_step(5, 0), ClipStep::MoveStart(ClipEdge::Bottom));
    assert_eq!(clip_step(0, 1), ClipStep::MoveEnd(ClipEdge::Left));
    assert_eq!(clip_step(2, 8), ClipStep::MoveEnd(ClipEdge::Top));
    assert_eq!(clip_step(8, 2), ClipStep::MoveStart(ClipEdge::Top));
    assert_eq!(clip_step(2, 0), ClipStep::MoveStart(ClipEdge::Right));
}

#[test]
fn lines_hold_their_ends() {
    let line = Line2::new((1.0f64, 2.0f64), (3.0, 4.0));
    assert_eq!(line.start(), (1.0, 2.0));
    assert_eq!(line.end(), (3.0, 4.0));
    let line3 = Line3::new([0.0f64; 3], [1.0, 1.0, 1.0]);
    assert_eq!(line3.points[1], [1.0, 1.0, 1.0]);
    let meeting: LinePlaneIntersection<[f64; 3]> = LinePlaneIntersection::Point([0.0; 3]);
    assert_eq!(meeting, LinePlaneIntersection::Point([0.0; 3]));
}

#[test]
fn combine_outlines_concatenates() {
    assert_eq!(combine_outlines(&vec![None, Some(vec![])]), None);
    let combined = combine_outlines(&vec![Some(vec![[1, 2]]), None, Some(vec![[3, 4], [5, 6]])]);
    assert_eq!(combined, Some(vec![[1, 2], [3, 4], [5, 6]]));
}

#[test]
fn rasterize_marks_from_the_bottom_row() {
    let mut image = vec![0u8; 6];
    let mut depths = vec![9u8; 6];
    rasterize_pixels(&mut image, &mut depths, 3, 2, &vec![[0, 0], [2, 1]], 1, 0);
    assert_eq!(image, vec![0, 0, 1, 1, 0, 0]);
    assert_eq!(depths, vec![9, 9, 0, 0, 9, 9]);
}

#[test]
fn rect_test_new() {
    let axes = RectAxes::XY;
    assert_eq!(axes.axes_indices(), (0, 1));
    assert_eq!(axes.unused_axis_index(), 2);
}

#[test]
fn rect_axes_indices() {
    assert_eq!(RectAxes::XZ.axes_indices(), (0, 2));
    assert_eq!(RectAxes::XZ.unused_axis_index(), 1);
    assert_eq!(RectAxes::YZ.axes_indices(), (1, 2));
    assert_eq!(RectAxes::YZ.unused_axis_index(), 0);
}
