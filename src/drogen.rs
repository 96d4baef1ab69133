//! A symmetric pulse that travels out from the middle of the strip.
use vstd::prelude::*;
use crate::color::{hsv2rgb, rgb_spec, Rgb, ONE};
use crate::effect::{check_strip, strip_error, ConfigError, LedEffect, MAX_LEDS};

verus! {

/// The number of samples in a wave table. Sample `k` holds
/// `0.5 + 0.5 * sin(pi * k / 256)` as a fraction of `ONE`: one full period
/// of the raised sine, which repeats every 2 units of its argument.
pub const WAVE_TABLE_LEN: usize = 512;

/// The width of one table step in fractions of `ONE`: `2 * ONE / 512`.
pub const WAVE_STEP: u64 = 256;

/// The length of one period of the raised sine, in fractions of `ONE`.
pub const WAVE_PERIOD: u64 = 131072;

/// The global phase goes round once every 2.5 seconds (0.4 per second).
pub const PHASE_CYCLE_MICROS: u64 = 2500000;

/// One tenth, in fractions of `ONE`, rounded to nearest.
pub const TENTH: u64 = 6554;

/// The global phase after `delta` more microseconds. Once past a full
/// cycle it drops back by whole cycles into `(0, cycle]`; landing exactly on
/// a full cycle keeps it there, which differs from 0 because the raised sine
/// repeats only every 2.
pub open spec fn next_drogen_phase(phase: int, delta: int) -> int {
    let t = phase + delta;
    if t > PHASE_CYCLE_MICROS { (t - 1) % (PHASE_CYCLE_MICROS as int) + 1 } else { t }
}

/// Whether `t` can serve as a wave table.
pub open spec fn wave_table_ok(t: Seq<u32>) -> bool {
    &&& t.len() == WAVE_TABLE_LEN
    &&& forall|k: int| 0 <= k < t.len() ==> #[trigger] t[k] <= ONE
}

/// The raised sine at `x` (a fraction of `ONE`), read from table `t`: the
/// sample at or below `x`, the period taken into account.
pub open spec fn wave_at(t: Seq<u32>, x: int) -> int {
    t[(x % (WAVE_PERIOD as int)) / (WAVE_STEP as int)] as int
}

/// The error, if any, for a strip of `num_leds` pixels and a wave table `t`.
pub open spec fn drogen_error(num_leds: nat, t: Seq<u32>) -> Option<ConfigError> {
    if strip_error(num_leds) is Some {
        strip_error(num_leds)
    } else if !wave_table_ok(t) {
        Some(ConfigError::BadWaveTable)
    } else {
        None
    }
}

/// `0.1 - |i - n/2| / (n/2)` as a fraction of `ONE`: 0.1 in the middle of
/// the strip, falling to -0.9 at its ends.
pub open spec fn spatial_spec(index: int, n: int) -> int {
    let d = if 2 * index >= n { 2 * index - n } else { n - 2 * index };
    TENTH - d * ONE / n
}

/// A pulse mirrored about the middle of the strip, its hue carried round
/// the color wheel by a slow global phase.
pub struct DrogenEffect {
    phase: u64,
    num_leds: usize,
    wave: Vec<u32>,
}

impl DrogenEffect {
    /// Microseconds into the current cycle of the global phase, in
    /// `[0, PHASE_CYCLE_MICROS]`.
    pub closed spec fn phase(&self) -> int {
        self.phase as int
    }

    pub closed spec fn num_leds(&self) -> nat {
        self.num_leds as nat
    }

    pub closed spec fn wave(&self) -> Seq<u32> {
        self.wave@
    }

    /// The global phase as a fraction of `ONE`.
    pub open spec fn phase_fraction(&self) -> int {
        self.phase() * ONE / (PHASE_CYCLE_MICROS as int)
    }

    /// Builds the effect for a strip of `num_leds` pixels, with `wave`
    /// sampling the raised sine (see `WAVE_TABLE_LEN`).
    pub fn new(num_leds: usize, wave: Vec<u32>) -> (r: Result<DrogenEffect, ConfigError>)
        ensures
            r is Err <==> drogen_error(num_leds as nat, wave@) is Some,
            r matches Err(e) ==> drogen_error(num_leds as nat, wave@) == Some(e),
            r matches Ok(d) ==> {
                &&& d.well_formed()
                &&& d.num_leds() == num_leds
                &&& d.wave() == wave@
                &&& d.phase() == 0
            },
    {
        check_strip(num_leds)?;
        if wave.len() != WAVE_TABLE_LEN {
            return Err(ConfigError::BadWaveTable);
        }
        let mut k: usize = 0;
        while k < wave.len()
            invariant
                k <= wave.len(),
                strip_error(num_leds as nat) is None,
                forall|j: int| 0 <= j < k ==> #[trigger] wave@[j] <= ONE,
            decreases wave.len() - k,
        {
            if wave[k] > ONE {
                assert(wave@[k as int] > ONE);
                return Err(ConfigError::BadWaveTable);
            }
            k = k + 1;
        }
        Ok(DrogenEffect { phase: 0, num_leds, wave })
    }

    /// The raised sine at `x`, read from the table.
    fn wave_of(&self, x: u64) -> (w: u32)
        requires
            self.well_formed(),
        ensures
            w == wave_at(self.wave@, x as int),
            w <= ONE,
    {
        self.wave[((x % WAVE_PERIOD) / WAVE_STEP) as usize]
    }

    /// The position term of pixel `index`, shifted up by one period so that
    /// it is not negative.
    fn spatial(&self, index: usize) -> (x: u64)
        requires
            self.well_formed(),
            index < self.num_leds,
        ensures
            x == spatial_spec(index as int, self.num_leds as int) + WAVE_PERIOD,
    {
        let n = self.num_leds as u64;
        let i = index as u64;
        let d: u64 = if 2 * i >= n { 2 * i - n } else { n - 2 * i };
        assert(d * ONE / (n as int) <= ONE) by (nonlinear_arith)
            requires
                d <= n,
                n >= 1,
        ;
        TENTH + WAVE_PERIOD - d * (ONE as u64) / n
    }
}

/// Reading the wave one period further on gives the same sample.
proof fn lemma_wave_period(t: Seq<u32>, x: int)
    ensures
        wave_at(t, x + WAVE_PERIOD) == wave_at(t, x),
{
    assert((x + WAVE_PERIOD) % (WAVE_PERIOD as int) == x % (WAVE_PERIOD as int)) by (nonlinear_arith);
}

/// The color of pixel `index`: the raised sine of the position term, moved
/// on by the global phase and put through the raised sine again, used as
/// hue at full saturation and value.
pub open spec fn drogen_color(t: Seq<u32>, phase_fraction: int, index: int, n: int) -> Rgb {
    let w1 = wave_at(t, spatial_spec(index, n));
    let w2 = wave_at(t, w1 + phase_fraction);
    rgb_spec(w2 * 6, ONE as int, ONE as int)
}

impl LedEffect for DrogenEffect {
    open spec fn well_formed(&self) -> bool {
        &&& 1 <= self.num_leds() <= MAX_LEDS
        &&& 0 <= self.phase() <= PHASE_CYCLE_MICROS
        &&& wave_table_ok(self.wave())
    }

    open spec fn in_strip(&self, index: nat) -> bool {
        index < self.num_leds()
    }

    open spec fn advanced(&self, next: &Self, delta: u32) -> bool {
        &&& next.phase() == next_drogen_phase(self.phase(), delta as int)
        &&& next.num_leds() == self.num_leds()
        &&& next.wave() == self.wave()
    }

    open spec fn color_at(&self, index: nat) -> Rgb {
        drogen_color(self.wave(), self.phase_fraction(), index as int, self.num_leds() as int)
    }

    open spec fn label(&self) -> Seq<char> {
        "Drogen"@
    }

    fn before_render(&mut self, delta: u32) {
        let t = self.phase + delta as u64;
        self.phase = if t > PHASE_CYCLE_MICROS { (t - 1) % PHASE_CYCLE_MICROS + 1 } else { t };
    }

    fn render(&self, index: usize, num_leds: usize) -> (c: Rgb) {
        let x = self.spatial(index);
        proof {
            lemma_wave_period(self.wave@, spatial_spec(index as int, self.num_leds as int));
        }
        let w1 = self.wave_of(x);
        assert(self.phase * ONE / (PHASE_CYCLE_MICROS as int) <= ONE) by (nonlinear_arith)
            requires
                self.phase <= PHASE_CYCLE_MICROS,
        ;
        let t1 = self.phase * (ONE as u64) / PHASE_CYCLE_MICROS;
        let w2 = self.wave_of(w1 as u64 + t1);
        hsv2rgb(w2 * 6, ONE, ONE)
    }

    fn name(&self) -> (n: &'static str) {
        proof {
            reveal_strlit("Drogen");
        }
        "Drogen"
    }
}

} // verus!
