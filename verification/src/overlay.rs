//! What is drawn over the result image for an accepted pair.
//!
//! The sizes follow the width of the pair's first blob relative to the frame,
//! so that a near pair is drawn larger than a far one. The colours run from
//! red to green with the confidence in the pair.

use vstd::prelude::*;
use crate::blob::{BlobInfo, Point};
use crate::rational::{quotient, Rational};

verus! {

/// The number in the range of `i32` that is nearest to `x`.
pub open spec fn saturated(x: int) -> int {
    if x > i32::MAX {
        i32::MAX as int
    } else if x < i32::MIN {
        i32::MIN as int
    } else {
        x
    }
}

/// `factor` times the share that the blob's width has of the frame's, in
/// whole pixels.
pub open spec fn scaled_length(blob: BlobInfo, frame_width: int, factor: int) -> int {
    saturated((factor * blob.bbox.width) / frame_width)
}

/// The distance between the centres of neighbouring component marks.
pub open spec fn mark_spacing(blob: BlobInfo, frame_width: int) -> int {
    scaled_length(blob, frame_width, 150) + 5
}

/// The centre of the mark of component `i` of four: the marks stand in a row
/// on the upper edge of the blob's bounding box, the third above its middle.
pub open spec fn mark_center(blob: BlobInfo, frame_width: int, i: int) -> Point {
    Point {
        x: saturated(
            blob.bbox.x + blob.bbox.width / 2 + (i - 2) * mark_spacing(blob, frame_width),
        ) as i32,
        y: blob.bbox.y,
    }
}

/// The sizes and places of what is drawn for a pair.
pub struct PairOverlay {
    /// The thickness of the outlines of the two blobs and of the score's text.
    pub outline_thickness: i32,
    /// Where the score is written: the upper left corner of the first blob.
    pub text_origin: Point,
    /// The size of the score's text.
    pub text_scale: Rational,
    /// The centres of the marks of the four components.
    pub centers: Vec<Point>,
    /// The radius of a component's mark.
    pub radius: i32,
    /// The radius of the ring around the mark of a penalized component.
    pub ring_radius: i32,
    /// The thickness of that ring.
    pub ring_thickness: i32,
}

fn saturate(x: i64) -> (r: i32)
    ensures
        r == saturated(x as int),
{
    if x > i32::MAX as i64 {
        i32::MAX
    } else if x < i32::MIN as i64 {
        i32::MIN
    } else {
        x as i32
    }
}

fn length(width: i32, frame_width: i32, factor: i64) -> (r: i32)
    requires
        width > 0,
        frame_width > 0,
        0 < factor <= 1000,
    ensures
        r == saturated((factor * width) / (frame_width as int)),
        r >= 0,
{
    assert(0 <= factor * width <= 1000 * 0x7fff_ffff) by (nonlinear_arith)
        requires
            0 < factor <= 1000,
            0 < width <= 0x7fff_ffff,
    ;
    let exact: i64 = (factor * width as i64) / frame_width as i64;
    saturate(exact)
}

/// The sizes and places of what is drawn for a pair whose first blob is
/// `lower`, in a frame of the given width. There are none for a blob without
/// area, width or height, or a frame without width.
pub fn pair_overlay(lower: &BlobInfo, frame_width: i32) -> (r: Option<PairOverlay>)
    ensures
        r is Some <==> lower.valid() && frame_width > 0,
        r matches Some(o) ==> {
            &&& o.outline_thickness == scaled_length(*lower, frame_width as int, 25)
            &&& o.text_origin == (Point { x: lower.bbox.x, y: lower.bbox.y })
            &&& o.text_scale@ == quotient(10 * lower.bbox.width, frame_width as int)
            &&& o.centers@ == Seq::new(4, |i: int| mark_center(*lower, frame_width as int, i))
            &&& o.radius == scaled_length(*lower, frame_width as int, 75)
            &&& o.ring_radius == scaled_length(*lower, frame_width as int, 95)
            &&& o.ring_thickness == scaled_length(*lower, frame_width as int, 20)
        },
{
    if !lower.is_valid() || frame_width <= 0 {
        return None;
    }
    let width = lower.bbox.width;
    let spacing: i64 = length(width, frame_width, 150) as i64 + 5;
    let middle: i64 = lower.bbox.x as i64 + (width / 2) as i64;
    let mut centers: Vec<Point> = Vec::new();
    let mut i: i64 = 0;
    while i < 4
        invariant
            0 <= i <= 4,
            5 <= spacing <= 0x7fff_ffff + 5,
            spacing == mark_spacing(*lower, frame_width as int),
            middle == lower.bbox.x + lower.bbox.width / 2,
            centers@ =~= Seq::new(i as nat, |k: int| mark_center(*lower, frame_width as int, k)),
        decreases 4 - i,
    {
        assert(-2 * spacing <= (i - 2) * spacing <= 2 * spacing) by (nonlinear_arith)
            requires
                0 <= i < 4,
                spacing >= 0,
        ;
        let x = saturate(middle + (i - 2) * spacing);
        centers.push(Point { x, y: lower.bbox.y });
        i += 1;
    }
    Some(
        PairOverlay {
            outline_thickness: length(width, frame_width, 25),
            text_origin: Point { x: lower.bbox.x, y: lower.bbox.y },
            text_scale: Rational::new(10 * width as i64, frame_width as i64).unwrap(),
            centers,
            radius: length(width, frame_width, 75),
            ring_radius: length(width, frame_width, 95),
            ring_thickness: length(width, frame_width, 20),
        },
    )
}

/// How far `similarity` has come from `cap` to one: zero at the cap and one
/// at full similarity. At a cap of one, where nothing less than full
/// similarity is accepted, it is one.
pub open spec fn confidence_of(similarity: real, cap: real) -> real {
    if cap == 1real {
        1real
    } else {
        (similarity - cap) / (1real - cap)
    }
}

/// How far `similarity` has come from `cap` to one.
pub fn confidence(similarity: &Rational, cap: &Rational) -> (r: Rational)
    ensures
        r@ == confidence_of(similarity@, cap@),
{
    let one = Rational::from_int(1);
    match similarity.minus(cap).divided_by(&one.minus(cap)) {
        Some(c) => c,
        None => one,
    }
}

/// The red and the green of the colour for a confidence, on a scale of 255:
/// all red at zero and all green at one.
pub fn red_and_green(confidence: &Rational) -> (r: (Rational, Rational))
    ensures
        r.0@ == 255real * (1real - confidence@),
        r.1@ == 255real * confidence@,
{
    let full = Rational::from_int(255);
    let one = Rational::from_int(1);
    (full.times(&one.minus(confidence)), full.times(confidence))
}

} // verus!
