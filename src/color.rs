//! Colors and the HSV to RGB conversion shared by the effects.
use vstd::prelude::*;

verus! {

/// One unit of a fixed-point fraction: a fraction `x` stands for `x / ONE`.
pub const ONE: u32 = 65536;

/// One full turn of hue. The six sectors of the color wheel are `ONE` wide
/// each, so the sector boundaries `k / 6` are exact.
pub const HUE_TURN: u32 = 393216;

/// An RGB color with three independent 8-bit channels.
#[derive(Clone, Copy, PartialEq, Eq, Structural, Debug, Default)]
pub struct Rgb {
    pub r: u8,
    pub g: u8,
    pub b: u8,
}

impl Rgb {
    pub fn new(r: u8, g: u8, b: u8) -> (c: Rgb)
        ensures
            c == (Rgb { r, g, b }),
    {
        Rgb { r, g, b }
    }
}

/// `x` limited to at most `ONE`.
pub open spec fn clamp_unit(x: int) -> int {
    if x > ONE { ONE as int } else { x }
}

/// The three channels of `(h, s, v)` as fractions of `ONE`; `h` is read
/// modulo a full turn.
#[verifier::opaque]
pub open spec fn hsv_spec(h: int, s: int, v: int) -> (int, int, int) {
    let hh = h % (HUE_TURN as int);
    let sector = hh / (ONE as int);
    let f = hh % (ONE as int);
    let p = v * (ONE - s) / (ONE as int);
    let q = v * (ONE - f * s / (ONE as int)) / (ONE as int);
    let t = v * (ONE - (ONE - f) * s / (ONE as int)) / (ONE as int);
    if sector == 0 {
        (v, t, p)
    } else if sector == 1 {
        (q, v, p)
    } else if sector == 2 {
        (p, v, t)
    } else if sector == 3 {
        (p, q, v)
    } else if sector == 4 {
        (t, p, v)
    } else {
        (v, p, q)
    }
}

/// A fraction of `ONE` as an 8-bit channel: limited to `ONE`, scaled to 255
/// and rounded down.
pub open spec fn byte_of(x: int) -> int {
    clamp_unit(x) * 255 / (ONE as int)
}

/// `v * (ONE - a) / ONE` stays within `[0, v]`.
proof fn lemma_scaled_by_complement(v: int, a: int)
    requires
        0 <= v <= ONE,
        0 <= a <= ONE,
    ensures
        0 <= v * (ONE - a) / (ONE as int) <= v,
{
    assert(0 <= v * (ONE - a) <= v * ONE) by (nonlinear_arith)
        requires
            0 <= v <= ONE,
            0 <= a <= ONE,
    ;
    assert(v * (ONE - a) / (ONE as int) <= v * ONE / (ONE as int)) by (nonlinear_arith)
        requires
            0 <= v * (ONE - a) <= v * ONE,
    ;
    assert(v * ONE / (ONE as int) == v) by (nonlinear_arith);
}

/// `a * b / ONE` stays within `[0, ONE]` for fractions `a` and `b`.
proof fn lemma_product_of_fractions(a: int, b: int)
    requires
        0 <= a <= ONE,
        0 <= b <= ONE,
    ensures
        0 <= a * b / (ONE as int) <= b,
{
    lemma_scaled_by_complement(b, (ONE - a) as int);
    assert(b * (ONE - (ONE - a)) == a * b) by (nonlinear_arith);
}

/// `v * (ONE - a) / ONE` computed in 64 bits, for fractions `v` and `a`.
fn scale_by_complement(v: u32, a: u32) -> (r: u32)
    requires
        v <= ONE,
        a <= ONE,
    ensures
        r == v * (ONE - a) / (ONE as int),
        r <= v,
{
    proof {
        lemma_scaled_by_complement(v as int, a as int);
    }
    assert((v as u64) * ((ONE - a) as u64) <= (ONE as u64) * (ONE as u64)) by (nonlinear_arith)
        requires
            v <= ONE,
            a <= ONE,
    ;
    ((v as u64) * ((ONE - a) as u64) / (ONE as u64)) as u32
}

/// Converts hue, saturation and value to three channels, each a fraction of
/// `ONE`. The hue is read modulo `HUE_TURN`; no channel exceeds `v`.
pub fn hsv_to_rgb(h: u32, s: u32, v: u32) -> (c: (u32, u32, u32))
    requires
        s <= ONE,
        v <= ONE,
    ensures
        (c.0 as int, c.1 as int, c.2 as int) == hsv_spec(h as int, s as int, v as int),
        c.0 <= v,
        c.1 <= v,
        c.2 <= v,
{
    proof {
        reveal(hsv_spec);
    }
    let hh = h % HUE_TURN;
    let sector = hh / ONE;
    let f = hh % ONE;
    proof {
        lemma_product_of_fractions(f as int, s as int);
        lemma_product_of_fractions((ONE - f) as int, s as int);
    }
    assert((f as u64) * (s as u64) <= (ONE as u64) * (ONE as u64)) by (nonlinear_arith)
        requires
            f <= ONE,
            s <= ONE,
    ;
    assert(((ONE - f) as u64) * (s as u64) <= (ONE as u64) * (ONE as u64)) by (nonlinear_arith)
        requires
            f <= ONE,
            s <= ONE,
    ;
    let fs = ((f as u64) * (s as u64) / (ONE as u64)) as u32;
    let gs = (((ONE - f) as u64) * (s as u64) / (ONE as u64)) as u32;
    let p = scale_by_complement(v, s);
    let q = scale_by_complement(v, fs);
    let t = scale_by_complement(v, gs);
    if sector == 0 {
        (v, t, p)
    } else if sector == 1 {
        (q, v, p)
    } else if sector == 2 {
        (p, v, t)
    } else if sector == 3 {
        (p, q, v)
    } else if sector == 4 {
        (t, p, v)
    } else {
        (v, p, q)
    }
}

/// A fraction of `ONE` as an 8-bit channel: values above `ONE` count as
/// `ONE`, the rest is scaled to 255 and rounded down.
pub fn channel_to_byte(x: u64) -> (b: u8)
    ensures
        b == byte_of(x as int),
{
    let c: u64 = if x > ONE as u64 { ONE as u64 } else { x };
    assert(c * 255 / (ONE as int) <= 255) by (nonlinear_arith)
        requires
            c <= ONE,
    ;
    (c * 255 / (ONE as u64)) as u8
}

/// The 8-bit color of `(h, s, v)`, with saturation and value above `ONE`
/// counted as `ONE`.
pub open spec fn rgb_spec(h: int, s: int, v: int) -> Rgb {
    let (r, g, b) = hsv_spec(h, clamp_unit(s), clamp_unit(v));
    Rgb { r: byte_of(r) as u8, g: byte_of(g) as u8, b: byte_of(b) as u8 }
}

/// Converts hue, saturation and value to an 8-bit color. Saturation and
/// value above `ONE` count as `ONE`; the hue is read modulo `HUE_TURN`.
pub fn hsv2rgb(h: u32, s: u32, v: u32) -> (c: Rgb)
    ensures
        c == rgb_spec(h as int, s as int, v as int),
{
    let s = if s > ONE { ONE } else { s };
    let v = if v > ONE { ONE } else { v };
    let (r, g, b) = hsv_to_rgb(h, s, v);
    Rgb { r: channel_to_byte(r as u64), g: channel_to_byte(g as u64), b: channel_to_byte(b as u64) }
}

/// `255 * x / ONE`, for `x = a / b` with `a` and `b` counted in units of `ONE`:
/// the exact value that a conversion in real numbers gives, rounded down.
pub open spec fn exact_byte(a: int, b: int) -> int {
    255 * a * b / (ONE * ONE)
}

/// The color that exact arithmetic gives at the start of sector `k`: each
/// channel is either the value or the value times `1 - s`.
pub open spec fn boundary_reference(k: int, s: int, v: int) -> (int, int, int) {
    let hi = exact_byte(v, ONE as int);
    let lo = exact_byte(v, ONE - s);
    if k == 0 {
        (hi, lo, lo)
    } else if k == 1 {
        (hi, hi, lo)
    } else if k == 2 {
        (lo, hi, lo)
    } else if k == 3 {
        (lo, hi, hi)
    } else if k == 4 {
        (lo, lo, hi)
    } else {
        (hi, lo, hi)
    }
}

/// The exact channels at the start of sector `k`, scaled by `ONE * ONE`:
/// each is the value, or the value times `1 - s`.
pub open spec fn boundary_exact(k: int, s: int, v: int) -> (int, int, int) {
    let hi = v * ONE;
    let lo = v * (ONE - s);
    if k == 0 {
        (hi, lo, lo)
    } else if k == 1 {
        (hi, hi, lo)
    } else if k == 2 {
        (lo, hi, lo)
    } else if k == 3 {
        (lo, hi, hi)
    } else if k == 4 {
        (lo, lo, hi)
    } else {
        (hi, lo, hi)
    }
}

/// A channel `c`, a fraction of `ONE`, is the exact value `e` (scaled by
/// `ONE * ONE`) rounded down: short of it by less than `1 / ONE`, which on
/// the 0 to 255 scale is less than one step.
pub open spec fn rounds_down_to(c: int, e: int) -> bool {
    c * ONE <= e < (c + 1) * ONE
}

/// At each sector boundary `h = k / 6` every channel of the fractional
/// conversion is the exact value rounded down to a multiple of `1 / ONE`,
/// for every saturation and value; so on the 0 to 255 scale it is within
/// one of the exact conversion.
pub proof fn lemma_sector_boundaries_fraction(k: u32, s: u32, v: u32)
    requires
        k < 6,
        s <= ONE,
        v <= ONE,
    ensures
        ({
            let c = hsv_spec(k * ONE, s as int, v as int);
            let e = boundary_exact(k as int, s as int, v as int);
            rounds_down_to(c.0, e.0) && rounds_down_to(c.1, e.1) && rounds_down_to(c.2, e.2)
        }),
        ({
            let c = hsv_spec(k * ONE, s as int, v as int);
            let e = boundary_exact(k as int, s as int, v as int);
            &&& within_one(255 * c.0 / (ONE as int), 255 * e.0 / (ONE * ONE))
            &&& within_one(255 * c.1 / (ONE as int), 255 * e.1 / (ONE * ONE))
            &&& within_one(255 * c.2 / (ONE as int), 255 * e.2 / (ONE * ONE))
        }),
{
    reveal(hsv_spec);
    let o = ONE as int;
    let h = k * o;
    assert(h % (HUE_TURN as int) == h && h / o == k as int && h % o == 0) by (nonlinear_arith)
        requires
            h == k * o,
            0 <= k < 6,
            o == 65536,
    ;
    assert(0 * (s as int) / o == 0);
    assert((o - 0) * (s as int) / o == s) by (nonlinear_arith)
        requires
            o == 65536,
    ;
    assert(v * (o - 0) / o == v) by (nonlinear_arith)
        requires
            o == 65536,
    ;
    let x = v * (o - s);
    let lo = x / o;
    assert(lo * o <= x < (lo + 1) * o) by (nonlinear_arith)
        requires
            lo == x / o,
            o == 65536,
    ;
    assert(0 <= x <= o * o) by (nonlinear_arith)
        requires
            x == v * (o - s),
            0 <= v <= o,
            0 <= s <= o,
    ;
    lemma_rounding_twice(x);
    assert(byte_of(lo) == 255 * lo / o) by {
        lemma_scaled_by_complement(v as int, s as int);
    }
    assert(255 * v / o == 255 * (v * o) / (o * o)) by (nonlinear_arith)
        requires
            o == 65536,
    ;
}

/// Two channel values differ by at most one.
pub open spec fn within_one(a: int, b: int) -> bool {
    -1 <= a - b <= 1
}

/// Rounding `x / ONE` down before scaling to 255 changes the byte by at most one.
proof fn lemma_rounding_twice(x: int)
    requires
        0 <= x <= ONE * ONE,
    ensures
        within_one(byte_of(x / (ONE as int)), 255 * x / (ONE * ONE)),
{
    let o = ONE as int;
    let p = x / o;
    let r = x % o;
    assert(x == p * o + r && 0 <= r < o) by (nonlinear_arith)
        requires
            p == x / o,
            r == x % o,
            o == 65536,
    ;
    assert(0 <= p <= o) by (nonlinear_arith)
        requires
            0 <= x <= o * o,
            x == p * o + r,
            0 <= r < o,
            o == 65536,
    ;
    let a = 255 * p / o;
    let b = 255 * x / (o * o);
    assert(a <= b <= a + 1) by (nonlinear_arith)
        requires
            a == 255 * p / o,
            b == 255 * x / (o * o),
            x == p * o + r,
            0 <= r < o,
            0 <= p,
            o == 65536,
    ;
}

/// At each sector boundary `h = k / 6` the 8-bit conversion is within one
/// of the exact conversion, on every channel, for every saturation and
/// value.
pub proof fn lemma_sector_boundaries(k: u32, s: u32, v: u32)
    requires
        k < 6,
        s <= ONE,
        v <= ONE,
    ensures
        ({
            let c = rgb_spec(k * ONE, s as int, v as int);
            let e = boundary_reference(k as int, s as int, v as int);
            within_one(c.r as int, e.0) && within_one(c.g as int, e.1) && within_one(c.b as int, e.2)
        }),
{
    reveal(hsv_spec);
    let o = ONE as int;
    let h = k * o;
    assert(h % (HUE_TURN as int) == h && h / o == k as int && h % o == 0) by (nonlinear_arith)
        requires
            h == k * o,
            0 <= k < 6,
            o == 65536,
    ;
    assert(0 * (s as int) / o == 0);
    assert((o - 0) * (s as int) / o == s) by (nonlinear_arith)
        requires
            o == 65536,
    ;
    assert(v * (o - 0) / o == v) by (nonlinear_arith)
        requires
            o == 65536,
    ;
    lemma_scaled_by_complement(v as int, s as int);
    let lo = v * (o - s) / o;
    assert(0 <= v * (o - s) <= o * o) by (nonlinear_arith)
        requires
            0 <= v <= o,
            0 <= s <= o,
    ;
    lemma_rounding_twice(v * (o - s));
    assert(exact_byte(v as int, o) == byte_of(v as int)) by (nonlinear_arith)
        requires
            0 <= v <= o,
            o == 65536,
    ;
    assert(255 * v * (o - s) == 255 * (v * (o - s))) by (nonlinear_arith);
}

} // verus!
