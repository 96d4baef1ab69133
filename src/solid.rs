//! An effect that shows one color on every pixel.
use vstd::prelude::*;
use crate::color::Rgb;
use crate::effect::LedEffect;

verus! {

/// Every pixel shows `color`, whatever the time.
pub struct SolidColor {
    pub color: Rgb,
}

impl SolidColor {
    pub fn new(color: Rgb) -> (e: SolidColor)
        ensures
            e.color == color,
    {
        SolidColor { color }
    }
}

impl LedEffect for SolidColor {
    open spec fn well_formed(&self) -> bool {
        true
    }

    open spec fn in_strip(&self, index: nat) -> bool {
        true
    }

    open spec fn advanced(&self, next: &Self, delta: u32) -> bool {
        next.color == self.color
    }

    open spec fn color_at(&self, index: nat) -> Rgb {
        self.color
    }

    open spec fn label(&self) -> Seq<char> {
        "Solid Color"@
    }

    fn before_render(&mut self, delta: u32) {
    }

    fn render(&self, index: usize, num_leds: usize) -> (c: Rgb) {
        self.color
    }

    fn name(&self) -> (n: &'static str) {
        proof {
            reveal_strlit("Solid Color");
        }
        "Solid Color"
    }
}

/// A solid effect shows its color on every pixel, after any sequence of
/// updates.
pub proof fn lemma_solid_is_constant(e: SolidColor, next: SolidColor, delta: u32, index: nat)
    requires
        e.advanced(&next, delta),
    ensures
        next.color_at(index) == e.color,
{
}

} // verus!
