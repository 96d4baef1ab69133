//! The color of a single LED swept round the color wheel through
//! smart-leds' integer HSV conversion, gamma correction and dimming.
use vstd::prelude::*;
use crate::color::Rgb;

verus! {

/// What smart-leds' `hsv::hsv2rgb` gives for hue, saturation and value.
pub uninterp spec fn smart_hsv_of(hue: u8, sat: u8, val: u8) -> Rgb;

/// What smart-leds' gamma correction makes of one channel value.
pub uninterp spec fn gamma_of(v: u8) -> u8;

/// Relies on smart_leds::hsv::hsv2rgb, whose result depends on its
/// arguments alone.
#[verifier::external_body]
fn smart_hsv(hue: u8, sat: u8, val: u8) -> (c: Rgb)
    ensures
        c == smart_hsv_of(hue, sat, val),
{
    let c = smart_leds::hsv::hsv2rgb(smart_leds::hsv::Hsv { hue, sat, val });
    Rgb { r: c.r, g: c.g, b: c.b }
}

/// Relies on smart_leds::gamma, which maps each channel through one fixed
/// table and yields one color for each color it is given.
#[verifier::external_body]
fn gamma_corrected(c: Rgb) -> (g: Rgb)
    ensures
        g == (Rgb { r: gamma_of(c.r), g: gamma_of(c.g), b: gamma_of(c.b) }),
{
    let out: Vec<smart_leds::RGB8> = smart_leds::gamma(core::iter::once(smart_leds::RGB8::new(c.r, c.g, c.b))).collect();
    Rgb { r: out[0].r, g: out[0].g, b: out[0].b }
}

/// One channel dimmed to `level`: `v * (level + 1) / 256`.
pub open spec fn dimmed(v: u8, level: u8) -> u8 {
    (v * (level + 1) / 256) as u8
}

/// Relies on smart_leds::brightness, which scales each channel by
/// `(level + 1) / 256`, rounding down, and yields one color for each.
#[verifier::external_body]
fn dim(c: Rgb, level: u8) -> (d: Rgb)
    ensures
        d == (Rgb { r: dimmed(c.r, level), g: dimmed(c.g, level), b: dimmed(c.b, level) }),
{
    let out: Vec<smart_leds::RGB8> = smart_leds::brightness(core::iter::once(smart_leds::RGB8::new(c.r, c.g, c.b)), level).collect();
    Rgb { r: out[0].r, g: out[0].g, b: out[0].b }
}

/// The color shown for `hue` at full saturation and value, gamma corrected
/// and then dimmed to `level`, in the order smart-leds asks for.
pub fn sweep_color(hue: u8, level: u8) -> (c: Rgb)
    ensures
        ({
            let raw = smart_hsv_of(hue, 255, 255);
            c == (Rgb {
                r: dimmed(gamma_of(raw.r), level),
                g: dimmed(gamma_of(raw.g), level),
                b: dimmed(gamma_of(raw.b), level),
            })
        }),
{
    let raw = smart_hsv(hue, 255, 255);
    let corrected = gamma_corrected(raw);
    dim(corrected, level)
}

} // verus!
