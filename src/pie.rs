//! Where the pie of the e-paper demo goes on the display.
use vstd::prelude::*;

verus! {

/// The diameter of the pie, in pixels.
pub const PIE_DIAMETER: u32 = 100;

/// The top-left corner of the pie's bounding square on a display of
/// `width` by `height` pixels: half a diameter left of the middle, and 40
/// pixels above it.
pub fn pie_corner(width: u32, height: u32) -> (p: (i64, i64))
    ensures
        p.0 == width / 2 - PIE_DIAMETER / 2,
        p.1 == height / 2 - 40,
{
    ((width / 2) as i64 - (PIE_DIAMETER / 2) as i64, (height / 2) as i64 - 40)
}

} // verus!
