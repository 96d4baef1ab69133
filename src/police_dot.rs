//! Two dots, red and blue, that chase each other round the strip.
use vstd::prelude::*;
use vstd::arithmetic::div_mod::{lemma_add_mod_noop, lemma_add_mod_noop_right, lemma_small_mod};
use crate::color::Rgb;
use crate::effect::{check_strip, strip_error, ConfigError, LedEffect, MAX_LEDS};

verus! {

/// One cycle round the strip, in units of `1 / (1_000_000 * 65536)` cycle: a
/// speed of `s` (cycles per second, in fractions of 65536) run for `d`
/// microseconds advances the phase by `d * s` of these units.
pub const CYCLE: u64 = 65536000000;

/// The pixel under a phase: `floor(phase / CYCLE * n)`.
pub open spec fn head_of(phase: int, n: int) -> int {
    phase * n / (CYCLE as int)
}

/// The phase after `delta` microseconds at `speed`, wrapped into one cycle.
pub open spec fn next_phase(phase: int, speed: int, delta: int) -> int {
    (phase + delta * speed) % (CYCLE as int)
}

/// Whether `index` lies in the wrapping interval from `start` to `end`, both
/// ends included. Where `start > end` the interval crosses index 0.
pub open spec fn in_range_spec(index: int, start: int, end: int) -> bool {
    if start <= end {
        start <= index <= end
    } else {
        index >= start || index <= end
    }
}

pub fn in_range(index: usize, start: usize, end: usize, num_leds: usize) -> (r: bool)
    ensures
        r == in_range_spec(index as int, start as int, end as int),
{
    if start <= end {
        index >= start && index <= end
    } else {
        index >= start || index <= end
    }
}

/// A red dot and a blue dot half a strip apart, each `size + 1` pixels
/// long, going round once per `1 / speed` seconds.
pub struct PoliceDot {
    speed: u32,
    size: usize,
    phase: u64,
    num_leds: usize,
    red_start: usize,
    red_end: usize,
    blue_start: usize,
    blue_end: usize,
}

impl PoliceDot {
    /// Cycles per second, in fractions of 65536.
    pub closed spec fn speed(&self) -> u32 {
        self.speed
    }

    /// How many pixels each dot reaches beyond its head.
    pub closed spec fn size(&self) -> usize {
        self.size
    }

    pub closed spec fn phase(&self) -> int {
        self.phase as int
    }

    pub closed spec fn num_leds(&self) -> nat {
        self.num_leds as nat
    }

    /// Where the red dot starts.
    pub closed spec fn red_head(&self) -> int {
        self.red_start as int
    }

    /// Where the red dot ends.
    pub closed spec fn red_end(&self) -> int {
        self.red_end as int
    }

    /// Where the blue dot starts.
    pub closed spec fn blue_head(&self) -> int {
        self.blue_start as int
    }

    /// Where the blue dot ends.
    pub closed spec fn blue_end(&self) -> int {
        self.blue_end as int
    }

    /// The spans of both dots as the phase and size give them: the red head
    /// under the phase, the blue head half a strip on, each span `size`
    /// pixels further, all wrapped round the strip.
    pub open spec fn placed(&self) -> bool {
        let n = self.num_leds() as int;
        let head = head_of(self.phase(), n);
        &&& self.red_head() == head
        &&& self.red_end() == (head + self.size()) % n
        &&& self.blue_head() == (head + n / 2) % n
        &&& self.blue_end() == (self.blue_head() + self.size()) % n
    }

    pub fn new(speed: u32, size: usize, num_leds: usize) -> (r: Result<PoliceDot, ConfigError>)
        ensures
            r is Err <==> strip_error(num_leds as nat) is Some,
            r matches Err(e) ==> strip_error(num_leds as nat) == Some(e),
            r matches Ok(d) ==> {
                &&& d.well_formed()
                &&& d.speed() == speed
                &&& d.size() == size
                &&& d.num_leds() == num_leds
                &&& d.phase() == 0
                &&& d.red_head() == 0
                &&& d.red_end() == size % num_leds
                &&& d.blue_head() == num_leds / 2 % num_leds
                &&& d.blue_end() == (num_leds / 2 % num_leds + size) % (num_leds as int)
            },
    {
        check_strip(num_leds)?;
        let mut d = PoliceDot {
            speed,
            size,
            phase: 0,
            num_leds,
            red_start: 0,
            red_end: 0,
            blue_start: 0,
            blue_end: 0,
        };
        d.place();
        Ok(d)
    }

    /// Recomputes both spans from the phase.
    fn place(&mut self)
        requires
            1 <= old(self).num_leds <= MAX_LEDS,
            old(self).phase < CYCLE,
        ensures
            final(self).placed(),
            final(self).well_formed(),
            final(self).phase == old(self).phase,
            final(self).speed == old(self).speed,
            final(self).size == old(self).size,
            final(self).num_leds == old(self).num_leds,
    {
        let n = self.num_leds;
        let ph = self.phase;
        assert(ph * n < CYCLE * n && ph * n <= CYCLE * MAX_LEDS) by (nonlinear_arith)
            requires
                ph < CYCLE,
                1 <= n <= MAX_LEDS,
        ;
        assert(ph * n / (CYCLE as int) < n) by (nonlinear_arith)
            requires
                ph * n < CYCLE * n,
        ;
        let head = (ph * (n as u64) / CYCLE) as usize;
        proof {
            lemma_add_mod_noop_right(head as int, self.size as int, n as int);
        }
        self.red_start = head;
        self.red_end = (head + self.size % n) % n;
        self.blue_start = (head + n / 2) % n;
        proof {
            lemma_add_mod_noop_right(self.blue_start as int, self.size as int, n as int);
        }
        self.blue_end = (self.blue_start + self.size % n) % n;
    }

}

/// The sum of a run of time steps, in microseconds.
pub open spec fn total_micros(deltas: Seq<u32>) -> int
    decreases deltas.len(),
{
    if deltas.len() == 0 {
        0
    } else {
        total_micros(deltas.drop_last()) + deltas.last()
    }
}

/// Along a chain of states, each advanced from the one before by the next
/// of `deltas`, the phase after `k` steps is the first phase moved on by the
/// first `k` steps, and speed, size and length stay as they were.
proof fn lemma_chain(states: Seq<PoliceDot>, deltas: Seq<u32>, k: int)
    requires
        states.len() == deltas.len() + 1,
        states[0].well_formed(),
        forall|i: int| 0 <= i < deltas.len() ==> #[trigger] states[i].advanced(&states[i + 1], deltas[i]),
        0 <= k <= deltas.len(),
    ensures
        states[k].phase() == (states[0].phase() + total_micros(deltas.take(k)) * states[0].speed()) % (CYCLE as int),
        states[k].speed() == states[0].speed(),
        states[k].size() == states[0].size(),
        states[k].num_leds() == states[0].num_leds(),
        states[k].placed(),
    decreases k,
{
    let sp = states[0].speed() as int;
    if k > 0 {
        lemma_chain(states, deltas, k - 1);
        let i = k - 1;
        assert(states[i].advanced(&states[i + 1], deltas[i]));
        assert(i + 1 == k);
        assert(deltas.take(k).drop_last() =~= deltas.take(k - 1));
        let a = states[0].phase() + total_micros(deltas.take(k - 1)) * sp;
        let d = deltas[k - 1] * sp;
        lemma_add_mod_noop(a, d, CYCLE as int);
        lemma_small_mod(d as nat % CYCLE as nat, CYCLE as nat);
        assert(total_micros(deltas.take(k)) * sp == total_micros(deltas.take(k - 1)) * sp + d) by (nonlinear_arith)
            requires
                total_micros(deltas.take(k)) == total_micros(deltas.take(k - 1)) + deltas[k - 1],
                d == deltas[k - 1] * sp,
        ;
    } else {
        assert(deltas.take(0) =~= Seq::<u32>::empty());
        lemma_small_mod(states[0].phase() as nat, CYCLE as nat);
    }
}

/// Time steps that add up to a whole number of cycles, in particular to
/// exactly `1 / speed` seconds, bring both dots back to where they started:
/// `states` holds the effect before the first step and after each step.
pub proof fn lemma_police_dot_period(states: Seq<PoliceDot>, deltas: Seq<u32>)
    requires
        states.len() == deltas.len() + 1,
        states[0].well_formed(),
        forall|i: int| 0 <= i < deltas.len() ==> #[trigger] states[i].advanced(&states[i + 1], deltas[i]),
        (total_micros(deltas) * states[0].speed()) % (CYCLE as int) == 0,
    ensures
        states.last().red_head() == states[0].red_head(),
        states.last().red_end() == states[0].red_end(),
        states.last().blue_head() == states[0].blue_head(),
        states.last().blue_end() == states[0].blue_end(),
{
    let k = deltas.len() as int;
    lemma_chain(states, deltas, k);
    assert(deltas.take(k) =~= deltas);
    let t = total_micros(deltas) * states[0].speed();
    lemma_add_mod_noop(states[0].phase(), t, CYCLE as int);
    lemma_small_mod(states[0].phase() as nat, CYCLE as nat);
}

impl LedEffect for PoliceDot {
    open spec fn well_formed(&self) -> bool {
        &&& 1 <= self.num_leds() <= MAX_LEDS
        &&& 0 <= self.phase() < CYCLE
        &&& self.placed()
    }

    open spec fn in_strip(&self, index: nat) -> bool {
        index < self.num_leds()
    }

    /// The phase moves on by `delta * speed`, wrapped into one cycle, and
    /// the spans follow it.
    open spec fn advanced(&self, next: &Self, delta: u32) -> bool {
        &&& next.speed() == self.speed()
        &&& next.size() == self.size()
        &&& next.num_leds() == self.num_leds()
        &&& next.phase() == next_phase(self.phase(), self.speed() as int, delta as int)
        &&& next.placed()
    }

    /// Red inside the red span, blue inside the blue span.
    open spec fn color_at(&self, index: nat) -> Rgb {
        Rgb {
            r: if in_range_spec(index as int, self.red_head(), self.red_end()) { 255 } else { 0 },
            g: 0,
            b: if in_range_spec(index as int, self.blue_head(), self.blue_end()) { 255 } else { 0 },
        }
    }

    open spec fn label(&self) -> Seq<char> {
        "PoliceDot"@
    }

    fn before_render(&mut self, delta: u32) {
        let (d, sp) = (delta as u64, self.speed as u64);
        assert(d * sp <= 0xffff_ffffu64 * 0xffff_ffffu64) by (nonlinear_arith)
            requires
                d <= 0xffff_ffffu64,
                sp <= 0xffff_ffffu64,
        ;
        let advance = d * sp;
        proof {
            lemma_add_mod_noop_right(self.phase as int, advance as int, CYCLE as int);
        }
        self.phase = (self.phase + advance % CYCLE) % CYCLE;
        self.place();
    }

    fn render(&self, index: usize, num_leds: usize) -> (c: Rgb) {
        let r: u8 = if in_range(index, self.red_start, self.red_end, self.num_leds) { 255 } else { 0 };
        let b: u8 = if in_range(index, self.blue_start, self.blue_end, self.num_leds) { 255 } else { 0 };
        Rgb { r, g: 0, b }
    }

    fn name(&self) -> (n: &'static str) {
        proof {
            reveal_strlit("PoliceDot");
        }
        "PoliceDot"
    }
}

} // verus!
