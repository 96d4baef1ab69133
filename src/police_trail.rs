//! A red and a blue dot that each drag a fading trail.
use vstd::prelude::*;
use vstd::arithmetic::div_mod::lemma_add_mod_noop_right;
use crate::color::Rgb;
use crate::effect::{check_strip, strip_error, ConfigError, LedEffect, MAX_LEDS};
use crate::police_dot::{head_of, next_phase, CYCLE};

verus! {

/// How far `index` lies behind `head`, going backwards round a strip of `n`
/// pixels.
pub open spec fn distance_behind_spec(index: int, head: int, n: int) -> int {
    if index <= head {
        head - index
    } else {
        n - index + head
    }
}

/// The brightness at `distance` behind a head: full over the dot itself
/// (`distance < size`), then a linear fade to 0 over `trail_length` pixels,
/// then 0.
pub open spec fn trail_brightness_spec(distance: int, trail_length: int, size: int) -> int {
    if distance < size {
        255
    } else if distance - size < trail_length {
        255 * (trail_length - (distance - size)) / trail_length
    } else {
        0
    }
}

/// A red and a blue dot half a strip apart, `size` pixels long, going round
/// once per `1 / speed` seconds, each followed by a trail `trail_length`
/// pixels long.
pub struct PoliceTrail {
    speed: u32,
    size: usize,
    trail_length: usize,
    phase: u64,
    num_leds: usize,
    red_pos: usize,
    blue_pos: usize,
}

impl PoliceTrail {
    /// Cycles per second, in fractions of 65536.
    pub closed spec fn speed(&self) -> u32 {
        self.speed
    }

    pub closed spec fn size(&self) -> usize {
        self.size
    }

    pub closed spec fn trail_length(&self) -> usize {
        self.trail_length
    }

    pub closed spec fn phase(&self) -> int {
        self.phase as int
    }

    pub closed spec fn num_leds(&self) -> nat {
        self.num_leds as nat
    }

    /// The head of the red dot.
    pub closed spec fn red_head(&self) -> int {
        self.red_pos as int
    }

    /// The head of the blue dot.
    pub closed spec fn blue_head(&self) -> int {
        self.blue_pos as int
    }

    pub fn new(speed: u32, size: usize, trail_length: usize, num_leds: usize) -> (r: Result<
        PoliceTrail,
        ConfigError,
    >)
        ensures
            r is Err <==> strip_error(num_leds as nat) is Some,
            r matches Err(e) ==> strip_error(num_leds as nat) == Some(e),
            r matches Ok(t) ==> {
                &&& t.well_formed()
                &&& t.speed() == speed
                &&& t.size() == size
                &&& t.trail_length() == trail_length
                &&& t.num_leds() == num_leds
                &&& t.phase() == 0
                &&& t.red_head() == 0
                &&& t.blue_head() == num_leds / 2 % num_leds
            },
    {
        check_strip(num_leds)?;
        Ok(PoliceTrail {
            speed,
            size,
            trail_length,
            phase: 0,
            num_leds,
            red_pos: 0,
            blue_pos: num_leds / 2 % num_leds,
        })
    }

    /// How far `index` lies behind `head` on a strip of `num_leds` pixels.
    pub fn distance_behind(index: usize, head: usize, num_leds: usize) -> (d: usize)
        requires
            index < num_leds,
            head < num_leds,
        ensures
            d == distance_behind_spec(index as int, head as int, num_leds as int),
            d < num_leds,
    {
        if index <= head {
            head - index
        } else {
            num_leds - index + head
        }
    }

    /// The brightness at `distance` behind a head.
    pub fn trail_brightness(distance: usize, trail_length: usize, size: usize) -> (b: u8)
        ensures
            b == trail_brightness_spec(distance as int, trail_length as int, size as int),
    {
        if distance < size {
            255
        } else if distance - size < trail_length {
            let fade = (trail_length - (distance - size)) as u128;
            assert(255 * fade / (trail_length as int) <= 255) by (nonlinear_arith)
                requires
                    fade <= trail_length,
                    trail_length > 0,
            ;
            (255 * fade / (trail_length as u128)) as u8
        } else {
            0
        }
    }

    /// Both heads as the phase gives them: the red one under the phase, the
    /// blue one half a strip on.
    pub open spec fn placed(&self) -> bool {
        let n = self.num_leds() as int;
        &&& self.red_head() == head_of(self.phase(), n)
        &&& self.blue_head() == (self.red_head() + n / 2) % n
    }
}

impl LedEffect for PoliceTrail {
    open spec fn well_formed(&self) -> bool {
        &&& 1 <= self.num_leds() <= MAX_LEDS
        &&& 0 <= self.phase() < CYCLE
        &&& 0 <= self.red_head() < self.num_leds()
        &&& self.placed()
    }

    open spec fn in_strip(&self, index: nat) -> bool {
        index < self.num_leds()
    }

    /// The phase moves on by `delta * speed`, wrapped into one cycle, and
    /// the heads follow it.
    open spec fn advanced(&self, next: &Self, delta: u32) -> bool {
        &&& next.speed() == self.speed()
        &&& next.size() == self.size()
        &&& next.trail_length() == self.trail_length()
        &&& next.num_leds() == self.num_leds()
        &&& next.phase() == next_phase(self.phase(), self.speed() as int, delta as int)
        &&& next.placed()
    }

    /// Each channel is the trail brightness at the pixel's distance behind
    /// that color's head.
    open spec fn color_at(&self, index: nat) -> Rgb {
        let n = self.num_leds() as int;
        let tl = self.trail_length() as int;
        let sz = self.size() as int;
        Rgb {
            r: trail_brightness_spec(distance_behind_spec(index as int, self.red_head(), n), tl, sz) as u8,
            g: 0,
            b: trail_brightness_spec(distance_behind_spec(index as int, self.blue_head(), n), tl, sz) as u8,
        }
    }

    open spec fn label(&self) -> Seq<char> {
        "PoliceTrail"@
    }

    fn before_render(&mut self, delta: u32) {
        let (d, sp) = (delta as u64, self.speed as u64);
        assert(d * sp <= 0xffff_ffffu64 * 0xffff_ffffu64) by (nonlinear_arith)
            requires
                d <= 0xffff_ffffu64,
                sp <= 0xffff_ffffu64,
        ;
        let advance = d * sp;
        proof {
            lemma_add_mod_noop_right(self.phase as int, advance as int, CYCLE as int);
        }
        self.phase = (self.phase + advance % CYCLE) % CYCLE;
        let n = self.num_leds;
        let ph = self.phase;
        assert(ph * n < CYCLE * n && ph * n <= CYCLE * MAX_LEDS) by (nonlinear_arith)
            requires
                ph < CYCLE,
                1 <= n <= MAX_LEDS,
        ;
        assert(ph * n / (CYCLE as int) < n) by (nonlinear_arith)
            requires
                ph * n < CYCLE * n,
        ;
        self.red_pos = (ph * (n as u64) / CYCLE) as usize;
        self.blue_pos = (self.red_pos + n / 2) % n;
    }

    fn render(&self, index: usize, num_leds: usize) -> (c: Rgb) {
        let red_distance = Self::distance_behind(index, self.red_pos, self.num_leds);
        let blue_distance = Self::distance_behind(index, self.blue_pos, self.num_leds);
        let r = Self::trail_brightness(red_distance, self.trail_length, self.size);
        let b = Self::trail_brightness(blue_distance, self.trail_length, self.size);
        Rgb { r, g: 0, b }
    }

    fn name(&self) -> (n: &'static str) {
        proof {
            reveal_strlit("PoliceTrail");
        }
        "PoliceTrail"
    }
}

} // verus!
