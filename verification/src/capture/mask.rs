//! Captures of a shape that the user drew.

use vstd::prelude::*;

use crate::capture::pixels::Image;
use crate::capture::win::{Bounds, CaptureError, Frame};

verus! {

/// Fewer corners enclose nothing.
pub const MIN_POINTS: usize = 3;

/// Whether a shape of this many corners and this extent encloses nothing.
pub open spec fn is_degenerate(corners: usize, extent: Bounds) -> bool {
    corners < MIN_POINTS || extent.width == 0 || extent.height == 0
}

/// Cuts a frame to the extent of a drawn shape and clears what lies outside it.
///
/// `extent` is the shape's bounding box, rounded outward. `rasterise` gives the
/// alpha of each pixel of the cut, row by row; it is told the origin and the size
/// of the cut, which is smaller than the extent where the shape runs off the
/// frame.
pub fn apply_polygon<F: Fn((i32, i32), u32, u32) -> Vec<u8>>(
    frame: &Frame,
    corners: usize,
    extent: Bounds,
    rasterise: F,
) -> (r: Result<Frame, CaptureError>)
    requires
        forall|origin: (i32, i32), width: u32, height: u32| #[trigger]
            rasterise.requires((origin, width, height)),
    ensures
        match r {
            Ok(masked) => {
                &&& !is_degenerate(corners, extent)
                &&& exists|cut: Frame, coverage: Vec<u8>|
                    {
                        &&& #[trigger] frame.is_cut_to(extent, cut)
                        &&& #[trigger] rasterise.ensures(
                            (cut.origin, cut.image@.width, cut.image@.height),
                            coverage,
                        )
                        &&& masked.origin == cut.origin
                        &&& masked.image@ == crate::capture::pixels::covered(
                            cut.image@,
                            coverage@,
                        )
                    }
            },
            Err(e) => {
                &&& e is EmptyArea
                &&& is_degenerate(corners, extent) || extent.spec_intersect(
                    frame.spec_bounds(),
                ) is None
            },
        },
{
    if corners < MIN_POINTS {
        return Err(CaptureError::EmptyArea);
    }
    if extent.is_empty() {
        return Err(CaptureError::EmptyArea);
    }
    let cut: Frame = match frame.crop(extent) {
        Ok(cut) => cut,
        Err(e) => {
            return Err(e);
        },
    };
    let origin: (i32, i32) = cut.origin;
    let coverage: Vec<u8> = rasterise(origin, cut.image.width(), cut.image.height());
    let ghost seen = cut;
    assert(frame.is_cut_to(extent, seen));
    assert(rasterise.ensures((seen.origin, seen.image@.width, seen.image@.height), coverage));
    let image: Image = cut.image.apply_coverage(&coverage);
    Ok(Frame { image, origin })
}

/// A shape that encloses nothing is refused whatever the frame, and one that
/// reaches past the frame is cut, not refused.
pub proof fn a_shape_is_refused_only_off_the_frame(frame: Bounds, corners: usize, extent: Bounds)
    requires
        !is_degenerate(corners, extent),
    ensures
        extent.spec_intersect(frame) is None <==> forall|x: int, y: int|
            #![trigger extent.has(x, y)]
            !(extent.has(x, y) && frame.has(x, y)),
{
    crate::capture::win::intersection_is_the_common_part(extent, frame);
    if let Some(common) = extent.spec_intersect(frame) {
        assert(common.has(common.x as int, common.y as int));
        assert(extent.has(common.x as int, common.y as int));
    }
}

/// A shape encloses something once it has three corners and an extent with pixels.
pub proof fn three_corners_enclose_something(corners: usize, extent: Bounds)
    ensures
        is_degenerate(corners, extent) <==> !(corners >= 3 && extent.width != 0 && extent.height
            != 0),
{
}

} // verus!
