//! Lines in two and three dimensions, the decisions of Cohen–Sutherland
//! clipping, and the pixels a line covers.

use vstd::prelude::*;
use crate::geometry::points::{
    in_zone, is_outcode, lemma_zone_bits, share_zone, BOTTOM, LEFT, RIGHT, TOP,
};

verus! {

pub type OutCode = i8;

/// A line segment in the plane, from `points[0]` to `points[1]`.
#[derive(PartialEq, Debug, Copy, Clone, Default)]
pub struct Line2<P> {
    pub points: [P; 2],
}

impl<P: Copy> Line2<P> {
    pub fn new(start: P, end: P) -> (line: Line2<P>)
        ensures
            line.points[0] == start,
            line.points[1] == end,
    {
        Line2 { points: [start, end] }
    }

    pub fn start(&self) -> (start: P)
        ensures
            start == self.points[0],
    {
        self.points[0]
    }

    pub fn end(&self) -> (end: P)
        ensures
            end == self.points[1],
    {
        self.points[1]
    }
}

/// Where a line meets a plane: along its whole length, at one point, or
/// nowhere.
#[derive(PartialEq, Debug, Copy, Clone)]
pub enum LinePlaneIntersection<P> {
    Line(Line3<P>),
    Point(P),
    Disjoint,
}

/// A line segment in space, from `points[0]` to `points[1]`.
#[derive(PartialEq, Debug, Copy, Clone, Default)]
pub struct Line3<P> {
    pub points: [P; 2],
}

impl<P: Copy> Line3<P> {
    pub fn new(start: P, end: P) -> (line: Line3<P>)
        ensures
            line.points[0] == start,
            line.points[1] == end,
    {
        Line3 { points: [start, end] }
    }
}

/// An edge of the clip window.
#[derive(Clone, Copy, PartialEq, Eq, Structural, Debug)]
pub enum ClipEdge {
    Top,
    Bottom,
    Right,
    Left,
}

/// What one round of Cohen–Sutherland clipping does with a segment.
#[derive(Clone, Copy, PartialEq, Eq, Structural, Debug)]
pub enum ClipStep {
    /// Both ends lie inside the window: the segment is kept as it is.
    Accept,
    /// Both ends lie outside on the same side: nothing of the segment is visible.
    Reject,
    /// The start lies outside: move it onto the given edge and go again.
    MoveStart(ClipEdge),
    /// The end lies outside: move it onto the given edge and go again.
    MoveEnd(ClipEdge),
}

/// The outcode bit of an edge.
pub open spec fn edge_bit(edge: ClipEdge) -> OutCode {
    match edge {
        ClipEdge::Top => TOP,
        ClipEdge::Bottom => BOTTOM,
        ClipEdge::Right => RIGHT,
        ClipEdge::Left => LEFT,
    }
}

/// The edge an outside point is moved onto: the first of top, bottom,
/// right and left whose bit its outcode holds.
pub open spec fn clip_edge_for(code: OutCode) -> ClipEdge {
    if in_zone(code, TOP) {
        ClipEdge::Top
    } else if in_zone(code, BOTTOM) {
        ClipEdge::Bottom
    } else if in_zone(code, RIGHT) {
        ClipEdge::Right
    } else {
        ClipEdge::Left
    }
}

/// One round of Cohen–Sutherland clipping, decided from the outcodes of the
/// two ends: accept when both are inside, reject when both are outside on a
/// common side, and otherwise move the end with the larger outcode (the
/// start when they tie) onto an edge it lies beyond.
pub fn clip_step(outcode_0: OutCode, outcode_1: OutCode) -> (step: ClipStep)
    requires
        is_outcode(outcode_0),
        is_outcode(outcode_1),
    ensures
        (step == ClipStep::Accept) == (outcode_0 == 0 && outcode_1 == 0),
        (step == ClipStep::Reject) == (!(outcode_0 == 0 && outcode_1 == 0) && share_zone(
            outcode_0,
            outcode_1,
        )),
        step matches ClipStep::MoveStart(edge) ==> {
            &&& outcode_0 != 0
            &&& outcode_0 >= outcode_1
            &&& edge == clip_edge_for(outcode_0)
            &&& in_zone(outcode_0, edge_bit(edge))
        },
        step matches ClipStep::MoveEnd(edge) ==> {
            &&& outcode_1 != 0
            &&& outcode_1 > outcode_0
            &&& edge == clip_edge_for(outcode_1)
            &&& in_zone(outcode_1, edge_bit(edge))
        },
{
    proof {
        lemma_zone_bits(outcode_0, outcode_1);
        lemma_zone_bits(outcode_1, outcode_0);
    }
    if outcode_0 == 0 && outcode_1 == 0 {
        ClipStep::Accept
    } else if (outcode_0 & outcode_1) != 0 {
        ClipStep::Reject
    } else {
        let outcode_out: OutCode = if outcode_1 > outcode_0 {
            outcode_1
        } else {
            outcode_0
        };
        assert(outcode_out != 0);
        let edge = if (outcode_out & TOP) != 0 {
            ClipEdge::Top
        } else if (outcode_out & BOTTOM) != 0 {
            ClipEdge::Bottom
        } else if (outcode_out & RIGHT) != 0 {
            ClipEdge::Right
        } else {
            assert(outcode_out & 1 != 0) by (bit_vector)
                requires
                    0 < outcode_out < 16,
                    outcode_out & 8 == 0,
                    outcode_out & 4 == 0,
                    outcode_out & 2 == 0,
            ;
            ClipEdge::Left
        };
        if outcode_out == outcode_0 {
            ClipStep::MoveStart(edge)
        } else {
            ClipStep::MoveEnd(edge)
        }
    }
}

/// The points `line_drawing::Bresenham::new(start, end)` walks through, in order.
pub uninterp spec fn bresenham_walk(start: (isize, isize), end: (isize, isize)) -> Seq<(isize, isize)>;

/// Coordinates small enough that Bresenham's error term cannot overflow.
pub open spec fn walkable(point: (isize, isize)) -> bool {
    &&& -0x1fff_ffff <= point.0 <= 0x1fff_ffff
    &&& -0x1fff_ffff <= point.1 <= 0x1fff_ffff
}

pub open spec fn abs(v: int) -> int {
    if v < 0 {
        -v
    } else {
        v
    }
}

/// One point per step along the longer axis, both ends included.
pub open spec fn walk_length(start: (isize, isize), end: (isize, isize)) -> int {
    let dx = abs(end.0 - start.0);
    let dy = abs(end.1 - start.1);
    if dx >= dy {
        dx + 1
    } else {
        dy + 1
    }
}

/// Walks from `start` to `end` with `line_drawing::Bresenham` and collects the
/// points. The crate documents that the walk includes both the start and the
/// end point; its source steps once along the longer axis per point, so the
/// walk has one more point than that axis spans. Which points lie between the
/// ends is left to the name `bresenham_walk`.
#[verifier::external_body]
fn walk_bresenham(start: (isize, isize), end: (isize, isize)) -> (points: Vec<(isize, isize)>)
    requires
        walkable(start),
        walkable(end),
    ensures
        points@ == bresenham_walk(start, end),
        points@.len() == walk_length(start, end),
        points@[0] == start,
        points@[points@.len() - 1] == end,
{
    line_drawing::Bresenham::new(start, end).collect()
}

/// The pixel a walked point lands on: its coordinates, cast to `usize`.
pub open spec fn is_pixel_of(pixel: [usize; 2], point: (isize, isize)) -> bool {
    &&& pixel[0] == point.0 as usize
    &&& pixel[1] == point.1 as usize
}

/// The pixels of the walked points, in order.
pub fn pixels_from_points(points: &Vec<(isize, isize)>) -> (pixels: Vec<[usize; 2]>)
    ensures
        pixels@.len() == points@.len(),
        forall|i: int| 0 <= i < points@.len() ==> is_pixel_of(#[trigger] pixels@[i], points@[i]),
{
    let mut pixels: Vec<[usize; 2]> = Vec::new();
    let mut i: usize = 0;
    while i < points.len()
        invariant
            i <= points@.len(),
            pixels@.len() == i,
            forall|j: int| 0 <= j < i ==> is_pixel_of(#[trigger] pixels@[j], points@[j]),
        decreases points@.len() - i,
    {
        let (x, y) = points[i];
        pixels.push([x as usize, y as usize]);
        i += 1;
    }
    pixels
}

/// The pixels of the line from `start` to `end`, as Bresenham's algorithm
/// walks it: the first is `start`, the last is `end`, and there is one per
/// step along the longer axis.
pub fn bresenham(start: (isize, isize), end: (isize, isize)) -> (pixels: Vec<[usize; 2]>)
    requires
        walkable(start),
        walkable(end),
    ensures
        pixels@.len() == walk_length(start, end),
        forall|i: int|
            0 <= i < pixels@.len() ==> is_pixel_of(#[trigger] pixels@[i], bresenham_walk(start, end)[i]),
        is_pixel_of(pixels@[0], start),
        is_pixel_of(pixels@[pixels@.len() - 1], end),
{
    let points = walk_bresenham(start, end);
    pixels_from_points(&points)
}

} // verus!
