//! The capability that every effect offers.
use vstd::prelude::*;
use crate::color::Rgb;

verus! {

/// The longest strip an effect accepts. Positions are kept in fixed point
/// with 16 fractional bits, and this bound keeps their products in 64 bits.
pub const MAX_LEDS: usize = 65535;

/// Why an effect could not be built.
#[derive(Clone, Copy, PartialEq, Eq, Structural, Debug)]
pub enum ConfigError {
    /// The strip has no pixels.
    EmptyStrip,
    /// The strip is longer than `MAX_LEDS`.
    StripTooLong,
    /// The wave table does not have `WAVE_TABLE_LEN` entries within `[0, ONE]`.
    BadWaveTable,
}

/// The error, if any, for a strip of `num_leds` pixels.
pub open spec fn strip_error(num_leds: nat) -> Option<ConfigError> {
    if num_leds == 0 {
        Some(ConfigError::EmptyStrip)
    } else if num_leds > MAX_LEDS {
        Some(ConfigError::StripTooLong)
    } else {
        None
    }
}

/// Checks the length of a strip.
pub fn check_strip(num_leds: usize) -> (r: Result<(), ConfigError>)
    ensures
        r is Err <==> strip_error(num_leds as nat) is Some,
        r matches Err(e) ==> strip_error(num_leds as nat) == Some(e),
{
    if num_leds == 0 {
        Err(ConfigError::EmptyStrip)
    } else if num_leds > MAX_LEDS {
        Err(ConfigError::StripTooLong)
    } else {
        Ok(())
    }
}

/// An animation: state that advances with time and yields one color per
/// pixel. Time is counted in microseconds.
pub trait LedEffect: Sized {
    /// The effect's own invariant.
    spec fn well_formed(&self) -> bool;

    /// Whether pixel `index` lies on the strip this effect was built for.
    spec fn in_strip(&self, index: nat) -> bool;

    /// Whether `next` is this effect after `delta` microseconds.
    spec fn advanced(&self, next: &Self, delta: u32) -> bool;

    /// The color of pixel `index` in the current state.
    spec fn color_at(&self, index: nat) -> Rgb;

    /// The name under which a controller finds the effect.
    spec fn label(&self) -> Seq<char>;

    /// Advances the animation by `delta` microseconds.
    fn before_render(&mut self, delta: u32)
        requires
            old(self).well_formed(),
        ensures
            final(self).well_formed(),
            old(self).advanced(final(self), delta),
            forall|i: nat| #[trigger] final(self).in_strip(i) == old(self).in_strip(i),
    ;

    /// The color of pixel `index` of a strip of `num_leds` pixels.
    fn render(&self, index: usize, num_leds: usize) -> (c: Rgb)
        requires
            self.well_formed(),
            index < num_leds,
            self.in_strip(index as nat),
        ensures
            c == self.color_at(index as nat),
    ;

    /// The effect's name.
    fn name(&self) -> (n: &'static str)
        ensures
            n@ == self.label(),
    ;
}

} // verus!
