//! A rocket that climbs the strip on a trail of sparks.
use vstd::prelude::*;
use crate::color::{channel_to_byte, byte_of, hsv_spec, hsv_to_rgb, Rgb, HUE_TURN, ONE};
use crate::effect::{check_strip, strip_error, ConfigError, LedEffect, MAX_LEDS};

verus! {

/// Microseconds per second.
pub const MICROS: u64 = 1000000;

/// The largest cooling factor, 0.99 as a fraction of `ONE`.
pub const COOL_MAX: u64 = 64880;

/// 1.1 as a fraction of `ONE`.
pub const SAT_CEILING: u64 = 72090;

/// A tenth of a turn of hue.
pub const HUE_TENTH: u32 = 39322;

/// The seed of the default generator.
pub const DEFAULT_SEED: u32 = 12345;

/// One particle of the exhaust.
#[derive(Clone, Copy, PartialEq, Eq, Structural, Debug)]
pub struct Spark {
    /// Energy as a fraction of `ONE`; a spark with none left is respawned.
    pub energy: u32,
    /// Position on the strip in pixels, with 16 fractional bits.
    pub pos: u64,
    /// Hue, out of `HUE_TURN`.
    pub hue: u32,
}

/// The next state of the linear congruential generator.
#[verifier::opaque]
pub open spec fn lcg(seed: u32) -> u32 {
    ((seed * 1664525int + 1013904223int) % 0x1_0000_0000int) as u32
}

/// The fraction of `ONE` drawn from a generator state: its upper 16 bits.
pub open spec fn fraction_of(seed: u32) -> int {
    seed as int / (ONE as int)
}

/// Advances the generator and draws a fraction in `[0, ONE)`.
pub fn next_random(seed: &mut u32) -> (x: u32)
    ensures
        *final(seed) == lcg(*old(seed)),
        x == fraction_of(*final(seed)),
        x < ONE,
{
    proof {
        reveal(lcg);
    }
    let next = ((*seed as u64) * 1664525 + 1013904223) % 0x1_0000_0000;
    *seed = next as u32;
    *seed / ONE
}

/// The state of a rocket effect.
pub struct RocketView {
    pub num_leds: int,
    pub rocket_size: int,
    pub multi_color: bool,
    /// Position of the body in pixels, with 16 fractional bits.
    pub pos: int,
    /// Velocity of the body in pixels per second, with 16 fractional bits.
    pub vel: int,
    /// Microseconds since the last launch.
    pub elapsed: int,
    pub sparks: Seq<Spark>,
    pub max_sparks: int,
    /// The red, green and blue accumulators, fractions of `ONE` per pixel.
    pub r: Seq<u64>,
    pub g: Seq<u64>,
    pub b: Seq<u64>,
    pub seed: u32,
}

/// What the spark pass changes: the pool, the accumulators and the generator.
pub struct Exhaust {
    pub sparks: Seq<Spark>,
    pub r: Seq<u64>,
    pub g: Seq<u64>,
    pub b: Seq<u64>,
    pub seed: u32,
}

/// The flight time that sets the base acceleration, in seconds.
pub const FLIGHT_SECONDS: u64 = 5;

/// After this many microseconds of flight the boost sets in.
pub const BOOST_DELAY: u64 = 1000000;

/// The factor by which the boost multiplies the acceleration.
pub const BOOST: u64 = 50;

/// The hue of the exhaust when sparks are not colored one by one.
pub const EXHAUST_HUE: u32 = 7864;

/// The cooling factor for a step of `dt` microseconds:
/// `min(0.99, 0.1 / (dt * 10))` with `dt` in seconds.
pub open spec fn cool_factor(dt: int) -> int {
    if dt == 0 || 10000 * ONE / dt > COOL_MAX {
        COOL_MAX as int
    } else {
        10000 * ONE / dt
    }
}

/// Every accumulator multiplied by `cf / ONE`, rounded down.
pub open spec fn cooled(px: Seq<u64>, cf: int) -> Seq<u64> {
    Seq::new(px.len(), |i: int| (px[i] * cf / (ONE as int)) as u64)
}

/// The acceleration in pixels per second squared, 16 fractional bits.
pub open spec fn accel(n: int, elapsed: int) -> int {
    let base = 2 * n * ONE / (FLIGHT_SECONDS * FLIGHT_SECONDS);
    if elapsed > BOOST_DELAY { base * BOOST } else { base }
}

/// `a + b`, saturating at the largest `u64`.
pub open spec fn sat_add(a: int, b: int) -> int {
    if a + b > u64::MAX { u64::MAX as int } else { a + b }
}

/// The velocity after a step of `dt`, before any reset.
pub open spec fn next_vel(s: RocketView, dt: int) -> int {
    s.vel + accel(s.num_leds, sat_add(s.elapsed, dt)) * dt / (MICROS as int)
}

/// Where the body would be after a step of `dt`, before any reset.
pub open spec fn next_pos(s: RocketView, dt: int) -> int {
    s.pos + next_vel(s, dt) * dt / (MICROS as int)
}

/// The body after a step of `dt`: integrated by semi-implicit Euler, and
/// back at rest at the bottom once it reaches the top.
pub open spec fn flown(s: RocketView, dt: int) -> RocketView {
    if next_pos(s, dt) >= s.num_leds * ONE {
        RocketView { pos: 0, vel: 0, elapsed: 0, ..s }
    } else {
        RocketView { pos: next_pos(s, dt), vel: next_vel(s, dt), elapsed: sat_add(s.elapsed, dt), ..s }
    }
}

/// How many sparks a step works on.
pub open spec fn active_sparks(s: RocketView) -> int {
    let e = s.max_sparks * s.rocket_size / 20;
    if e < s.sparks.len() { e } else { s.sparks.len() as int }
}

/// The energy a spark loses in a step of `dt`: `0.9 / n * (dt * 10)`.
pub open spec fn energy_loss(dt: int, n: int) -> int {
    9 * dt * ONE / (MICROS * n)
}

/// How far a spark of energy `e` falls in a step of `dt`: `e^2 * (dt * 10)`.
pub open spec fn fall(e: int, dt: int) -> int {
    e * e * dt / (ONE * 100000)
}

/// The saturation of a spark whose brightness is `v`: `1.1 - v`, within `[0, 1]`.
pub open spec fn spark_sat(v: int) -> int {
    if v >= SAT_CEILING { 0 } else if SAT_CEILING - v > ONE { ONE as int } else { SAT_CEILING - v }
}

/// Adds a contribution to accumulator `i`, if there is one.
pub open spec fn blend(px: Seq<u64>, i: int, c: int) -> Seq<u64> {
    if 0 <= i < px.len() { px.update(i, sat_add(px[i] as int, c) as u64) } else { px }
}

/// Spark `sp` brought back to life at `home` if it has no energy left,
/// and the generator after the draws this takes.
#[verifier::opaque]
pub open spec fn revived(sp: Spark, seed: u32, home: int, multi_color: bool) -> (Spark, u32) {
    if sp.energy == 0 {
        let s1 = lcg(seed);
        let energy = (ONE + fraction_of(s1) * 2 / 5) as u32;
        if multi_color {
            let s2 = lcg(s1);
            (Spark { energy, pos: home as u64, hue: (fraction_of(s2) * 6) as u32 }, s2)
        } else {
            (Spark { energy, pos: home as u64, hue: sp.hue }, s1)
        }
    } else {
        (sp, seed)
    }
}

/// The color a spark of brightness `v` adds, with hue `base` shifted by a
/// tenth to three tenths of a turn while it fizzles (`v < 0.5`), and the
/// generator after the draw this takes.
#[verifier::opaque]
pub open spec fn glow(v: int, base: int, seed: u32) -> ((int, int, int), u32) {
    let s = if v < ONE / 2 { lcg(seed) } else { seed };
    let h = if v < ONE / 2 { base + HUE_TENTH + fraction_of(s) * 6 / 5 } else { base };
    let val = if v > ONE { ONE as int } else { v };
    (hsv_spec(h, spark_sat(v), val), s)
}

/// Spark `j` after a step of `dt` on a strip of `n` pixels, with the body
/// at `home`.
#[verifier::opaque]
pub open spec fn spark_step(n: int, multi_color: bool, x: Exhaust, j: int, home: int, dt: int) -> Exhaust {
    let (sp, seed) = revived(x.sparks[j], x.seed, home, multi_color);
    let loss = energy_loss(dt, n);
    let e = if sp.energy > loss { sp.energy - loss } else { 0 };
    let drop = fall(e, dt);
    if drop > sp.pos {
        Exhaust { sparks: x.sparks.update(j, Spark { energy: 0, pos: home as u64, ..sp }), seed, ..x }
    } else {
        let pos = sp.pos - drop;
        let base = if multi_color { sp.hue as int } else { EXHAUST_HUE as int };
        let (c, seed2) = glow(e * e / (ONE as int), base, seed);
        let i = pos / (ONE as int);
        Exhaust {
            sparks: x.sparks.update(j, Spark { energy: e as u32, pos: pos as u64, ..sp }),
            r: blend(x.r, i, c.0),
            g: blend(x.g, i, c.1),
            b: blend(x.b, i, c.2),
            seed: seed2,
        }
    }
}

/// The exhaust after the first `k` sparks of a step have been worked on.
pub open spec fn sparks_upto(n: int, multi_color: bool, x: Exhaust, k: nat, home: int, dt: int) -> Exhaust
    decreases k,
{
    if k == 0 {
        x
    } else {
        spark_step(n, multi_color, sparks_upto(n, multi_color, x, (k - 1) as nat, home, dt), k - 1, home, dt)
    }
}

/// The accumulators with the body, `size` pixels from `pos`, painted over
/// in color `c`.
pub open spec fn painted(px: Seq<u64>, pos: int, size: int, c: int) -> Seq<u64> {
    let start = pos / (ONE as int);
    Seq::new(px.len(), |i: int| if start <= i < start + size { c as u64 } else { px[i] })
}

/// The body's color: white.
pub open spec fn body_color() -> (int, int, int) {
    hsv_spec(0, 0, ONE as int)
}

/// The exhaust of a step of `dt` just after cooling.
pub open spec fn cooled_exhaust(s: RocketView, dt: int) -> Exhaust {
    let cf = cool_factor(dt);
    Exhaust { sparks: s.sparks, r: cooled(s.r, cf), g: cooled(s.g, cf), b: cooled(s.b, cf), seed: s.seed }
}

/// The exhaust of a step of `dt` before spark `j` is worked on.
pub open spec fn exhaust_before(s: RocketView, dt: int, j: nat) -> Exhaust {
    sparks_upto(s.num_leds, s.multi_color, cooled_exhaust(s, dt), j, flown(s, dt).pos, dt)
}

/// The pixel that spark `j` lights in a step, if it stays on the strip.
#[verifier::opaque]
pub open spec fn landing(n: int, multi_color: bool, x: Exhaust, j: int, home: int, dt: int) -> Option<int> {
    let (sp, seed) = revived(x.sparks[j], x.seed, home, multi_color);
    let loss = energy_loss(dt, n);
    let e = if sp.energy > loss { sp.energy - loss } else { 0 };
    let drop = fall(e, dt);
    if drop > sp.pos { None } else { Some((sp.pos - drop) / (ONE as int)) }
}

/// Whether some spark lights pixel `k` in a step of `dt`.
pub open spec fn spark_lands_on(s: RocketView, dt: int, k: int) -> bool {
    exists|j: nat|
        j < active_sparks(s) && #[trigger] landing(
            s.num_leds,
            s.multi_color,
            exhaust_before(s, dt, j),
            j as int,
            flown(s, dt).pos,
            dt,
        ) == Some(k)
}

/// A spark that lights another pixel leaves pixel `k` as it was.
proof fn lemma_spark_elsewhere(n: int, multi_color: bool, x: Exhaust, j: int, home: int, dt: int, k: int)
    requires
        0 <= j < x.sparks.len(),
        0 <= k < x.r.len(),
        x.g.len() == x.r.len(),
        x.b.len() == x.r.len(),
        landing(n, multi_color, x, j, home, dt) != Some(k),
    ensures
        ({
            let y = spark_step(n, multi_color, x, j, home, dt);
            &&& y.sparks.len() == x.sparks.len()
            &&& y.r.len() == x.r.len() && y.g.len() == x.r.len() && y.b.len() == x.r.len()
            &&& y.r[k] == x.r[k] && y.g[k] == x.g[k] && y.b[k] == x.b[k]
        }),
{
    reveal(spark_step);
    reveal(landing);
}

/// Sparks that light other pixels leave pixel `k` as it was.
proof fn lemma_sparks_elsewhere(n: int, multi_color: bool, x: Exhaust, m: nat, home: int, dt: int, k: int)
    requires
        m <= x.sparks.len(),
        0 <= k < x.r.len(),
        x.g.len() == x.r.len(),
        x.b.len() == x.r.len(),
        forall|j: nat|
            j < m ==> #[trigger] landing(n, multi_color, sparks_upto(n, multi_color, x, j, home, dt), j as int, home, dt)
                != Some(k),
    ensures
        ({
            let y = sparks_upto(n, multi_color, x, m, home, dt);
            &&& y.sparks.len() == x.sparks.len()
            &&& y.r.len() == x.r.len() && y.g.len() == x.r.len() && y.b.len() == x.r.len()
            &&& y.r[k] == x.r[k] && y.g[k] == x.g[k] && y.b[k] == x.b[k]
        }),
    decreases m,
{
    if m > 0 {
        let p = (m - 1) as nat;
        lemma_sparks_elsewhere(n, multi_color, x, p, home, dt, k);
        assert(landing(n, multi_color, sparks_upto(n, multi_color, x, p, home, dt), p as int, home, dt) != Some(k));
        lemma_spark_elsewhere(n, multi_color, sparks_upto(n, multi_color, x, p, home, dt), p as int, home, dt, k);
    }
}

/// The effect after a step of `dt` microseconds: cool every accumulator,
/// move the body, work the sparks, then paint the body.
pub open spec fn rocket_step(s: RocketView, dt: int) -> RocketView {
    let f = flown(s, dt);
    let x = exhaust_before(s, dt, active_sparks(s) as nat);
    let c = body_color();
    RocketView {
        sparks: x.sparks,
        r: painted(x.r, f.pos, s.rocket_size, c.0),
        g: painted(x.g, f.pos, s.rocket_size, c.1),
        b: painted(x.b, f.pos, s.rocket_size, c.2),
        seed: x.seed,
        ..f
    }
}

/// What a spark may hold on a strip of `n` pixels.
pub open spec fn spark_ok(sp: Spark, n: int) -> bool {
    &&& sp.energy * 5 < 7 * ONE
    &&& sp.pos < n * ONE
    &&& sp.hue < HUE_TURN
}

/// A new spark drawn from the generator: three draws give its position, its
/// energy (more towards the bottom) and its hue.
pub open spec fn spawn(seed: u32, n: int) -> (Spark, u32) {
    let s1 = lcg(seed);
    let s2 = lcg(s1);
    let s3 = lcg(s2);
    (
        Spark {
            pos: (fraction_of(s1) * n) as u64,
            energy: (ONE - fraction_of(s1) + fraction_of(s2) * 2 / 5) as u32,
            hue: (fraction_of(s3) * 6) as u32,
        },
        s3,
    )
}

/// The first `k` sparks of a new pool, and the generator after them.
pub open spec fn initial_pool(seed: u32, n: int, k: nat) -> (Seq<Spark>, u32)
    decreases k,
{
    if k == 0 {
        (Seq::empty(), seed)
    } else {
        let (pool, s) = initial_pool(seed, n, (k - 1) as nat);
        let (sp, s2) = spawn(s, n);
        (pool.push(sp), s2)
    }
}

/// The size of the spark pool on a strip of `n` pixels: `max(1, n / 6)`.
pub open spec fn pool_size(n: int) -> int {
    if n / 6 > 1 { n / 6 } else { 1 }
}

/// Multiplies every accumulator by `cf / ONE`.
fn cool(px: &mut Vec<u64>, cf: u64)
    requires
        cf <= COOL_MAX,
    ensures
        final(px)@ == cooled(old(px)@, cf as int),
{
    let ghost start = px@;
    let mut i: usize = 0;
    while i < px.len()
        invariant
            cf <= COOL_MAX,
            i <= px.len(),
            px@.len() == start.len(),
            forall|k: int| 0 <= k < i ==> #[trigger] px@[k] == (start[k] * cf / (ONE as int)) as u64,
            forall|k: int| i <= k < px.len() ==> #[trigger] px@[k] == start[k],
        decreases px.len() - i,
    {
        let v = px[i] as u128;
        assert(v * cf / (ONE as int) <= v) by (nonlinear_arith)
            requires
                cf <= COOL_MAX,
                v >= 0,
        ;
        let c = (v * (cf as u128) / (ONE as u128)) as u64;
        px.set(i, c);
        i = i + 1;
    }
    assert(px@ =~= cooled(start, cf as int));
}

/// Adds `c` to accumulator `i`, saturating.
fn add_to(px: &mut Vec<u64>, i: usize, c: u32)
    requires
        i < old(px).len(),
    ensures
        final(px)@ == blend(old(px)@, i as int, c as int),
{
    let v = px[i].saturating_add(c as u64);
    px.set(i, v);
}

/// Paints `size` accumulators from `pos / ONE` on with `c`.
fn paint(px: &mut Vec<u64>, pos: u64, size: usize, c: u32)
    requires
        old(px).len() <= MAX_LEDS,
        size <= MAX_LEDS,
        pos as int / (ONE as int) < old(px).len(),
    ensures
        final(px)@ == painted(old(px)@, pos as int, size as int, c as int),
{
    let ghost before = px@;
    let start = (pos / (ONE as u64)) as usize;
    let mut j: usize = 0;
    while j < size
        invariant
            j <= size <= MAX_LEDS,
            start == pos as int / (ONE as int),
            start < px.len() <= MAX_LEDS,
            px@.len() == before.len(),
            forall|k: int|
                0 <= k < px@.len() ==> #[trigger] px@[k] == if start <= k < start + j {
                    c as u64
                } else {
                    before[k]
                },
        decreases size - j,
    {
        if start + j < px.len() {
            px.set(start + j, c as u64);
        }
        j = j + 1;
    }
    assert(px@ =~= painted(before, pos as int, size as int, c as int));
}

/// A zeroed accumulator for each of `n` pixels.
fn zeros(n: usize) -> (v: Vec<u64>)
    ensures
        v@ == Seq::new(n as nat, |i: int| 0u64),
{
    let mut v: Vec<u64> = Vec::new();
    let mut i: usize = 0;
    while i < n
        invariant
            i <= n,
            v@ == Seq::new(i as nat, |k: int| 0u64),
        decreases n - i,
    {
        v.push(0);
        i = i + 1;
        assert(v@ =~= Seq::new(i as nat, |k: int| 0u64));
    }
    v
}

/// A rocket that accelerates up the strip, gets a boost after a second,
/// and starts again from the bottom when it leaves the top. Sparks fall
/// from it and fade; every pixel keeps a glow that cools over time.
pub struct RocketEffect {
    rocket_size: usize,
    multi_color: bool,
    rocket_pos: u64,
    rocket_vel: u64,
    elapsed: u64,
    sparks: Vec<Spark>,
    max_sparks: usize,
    pixels_r: Vec<u64>,
    pixels_g: Vec<u64>,
    pixels_b: Vec<u64>,
    num_leds: usize,
    rng_seed: u32,
}

impl View for RocketEffect {
    type V = RocketView;

    closed spec fn view(&self) -> RocketView {
        RocketView {
            num_leds: self.num_leds as int,
            rocket_size: self.rocket_size as int,
            multi_color: self.multi_color,
            pos: self.rocket_pos as int,
            vel: self.rocket_vel as int,
            elapsed: self.elapsed as int,
            sparks: self.sparks@,
            max_sparks: self.max_sparks as int,
            r: self.pixels_r@,
            g: self.pixels_g@,
            b: self.pixels_b@,
            seed: self.rng_seed,
        }
    }
}

/// The invariant of a rocket effect's state.
pub open spec fn rocket_ok(s: RocketView) -> bool {
    &&& 1 <= s.num_leds <= MAX_LEDS
    &&& 0 <= s.rocket_size <= MAX_LEDS
    &&& 0 <= s.pos < s.num_leds * ONE
    &&& 0 <= s.vel <= s.num_leds * ONE * MICROS
    &&& 0 <= s.elapsed <= u64::MAX
    &&& s.max_sparks == pool_size(s.num_leds)
    &&& s.sparks.len() == s.max_sparks
    &&& forall|i: int| 0 <= i < s.sparks.len() ==> spark_ok(#[trigger] s.sparks[i], s.num_leds)
    &&& s.r.len() == s.num_leds
    &&& s.g.len() == s.num_leds
    &&& s.b.len() == s.num_leds
}

impl RocketEffect {
    /// The state just after construction on `num_leds` pixels with `seed`.
    pub open spec fn launched(num_leds: int, seed: u32) -> RocketView {
        let pool = initial_pool(seed, num_leds, pool_size(num_leds) as nat);
        RocketView {
            num_leds,
            rocket_size: 5,
            multi_color: false,
            pos: 0,
            vel: 0,
            elapsed: 0,
            sparks: pool.0,
            max_sparks: pool_size(num_leds),
            r: Seq::new(num_leds as nat, |i: int| 0u64),
            g: Seq::new(num_leds as nat, |i: int| 0u64),
            b: Seq::new(num_leds as nat, |i: int| 0u64),
            seed: pool.1,
        }
    }

    /// A rocket on `num_leds` pixels, its sparks drawn from the default seed.
    pub fn new(num_leds: usize) -> (r: Result<RocketEffect, ConfigError>)
        ensures
            r is Err <==> strip_error(num_leds as nat) is Some,
            r matches Err(e) ==> strip_error(num_leds as nat) == Some(e),
            r matches Ok(e) ==> e.well_formed() && e@ == Self::launched(num_leds as int, DEFAULT_SEED),
    {
        Self::with_seed(num_leds, DEFAULT_SEED)
    }

    /// A rocket on `num_leds` pixels, its sparks drawn from `seed`.
    pub fn with_seed(num_leds: usize, seed: u32) -> (r: Result<RocketEffect, ConfigError>)
        ensures
            r is Err <==> strip_error(num_leds as nat) is Some,
            r matches Err(e) ==> strip_error(num_leds as nat) == Some(e),
            r matches Ok(e) ==> e.well_formed() && e@ == Self::launched(num_leds as int, seed),
    {
        check_strip(num_leds)?;
        let max_sparks = if num_leds / 6 > 1 { num_leds / 6 } else { 1 };
        let mut sparks: Vec<Spark> = Vec::new();
        let mut rng = seed;
        let mut k: usize = 0;
        while k < max_sparks
            invariant
                1 <= num_leds <= MAX_LEDS,
                max_sparks == pool_size(num_leds as int),
                k <= max_sparks,
                sparks@.len() == k,
                (sparks@, rng) == initial_pool(seed, num_leds as int, k as nat),
                forall|i: int| 0 <= i < sparks@.len() ==> spark_ok(#[trigger] sparks@[i], num_leds as int),
            decreases max_sparks - k,
        {
            let sp = spawn_spark(&mut rng, num_leds);
            sparks.push(sp);
            k = k + 1;
        }
        let pixels_r = zeros(num_leds);
        let pixels_g = zeros(num_leds);
        let pixels_b = zeros(num_leds);
        let e = RocketEffect {
            rocket_size: 5,
            multi_color: false,
            rocket_pos: 0,
            rocket_vel: 0,
            elapsed: 0,
            sparks,
            max_sparks,
            pixels_r,
            pixels_g,
            pixels_b,
            num_leds,
            rng_seed: rng,
        };
        assert(e@ =~= Self::launched(num_leds as int, seed));

        Ok(e)
    }
}

impl RocketEffect {
    /// The body's position in pixels, with 16 fractional bits.
    pub fn position(&self) -> (p: u64)
        ensures
            p == self@.pos,
    {
        self.rocket_pos
    }

    /// The body's velocity in pixels per second, with 16 fractional bits.
    pub fn velocity(&self) -> (v: u64)
        ensures
            v == self@.vel,
    {
        self.rocket_vel
    }

    /// Microseconds since the last launch.
    pub fn elapsed_micros(&self) -> (t: u64)
        ensures
            t == self@.elapsed,
    {
        self.elapsed
    }

    /// The red, green and blue accumulators of pixel `index`.
    pub fn accumulator(&self, index: usize) -> (c: (u64, u64, u64))
        requires
            self.well_formed(),
            index < self@.num_leds,
        ensures
            c == (self@.r[index as int], self@.g[index as int], self@.b[index as int]),
    {
        (self.pixels_r[index], self.pixels_g[index], self.pixels_b[index])
    }

    /// Gives each spark a hue of its own when it is respawned.
    pub fn set_multi_color(&mut self, on: bool)
        requires
            old(self).well_formed(),
        ensures
            final(self).well_formed(),
            final(self)@ == (RocketView { multi_color: on, ..old(self)@ }),
    {
        self.multi_color = on;
    }

    /// Moves the body by one step of `dt`, resetting it at the top.
    fn fly(&mut self, dt: u32)
        requires
            rocket_ok(old(self)@),
        ensures
            final(self)@ == flown(old(self)@, dt as int),
            rocket_ok(final(self)@),
    {
        let ghost s = self@;
        let n = self.num_leds as u128;
        let elapsed = self.elapsed.saturating_add(dt as u64);
        let base = 2 * n * (ONE as u128) / ((FLIGHT_SECONDS * FLIGHT_SECONDS) as u128);
        assert(base * 50 <= 4 * 65535 * 65536) by (nonlinear_arith)
            requires
                base == 2 * n * 65536 / 25,
                n <= 65535,
        ;
        let a: u128 = if elapsed > BOOST_DELAY { base * 50 } else { base };
        assert(a == accel(s.num_leds, elapsed as int));
        let d = dt as u128;
        assert(a * d <= 4 * 65535 * 65536 * 0xffff_ffffu128) by (nonlinear_arith)
            requires
                a <= 4 * 65535 * 65536,
                d <= 0xffff_ffffu128,
        ;
        let vel = self.rocket_vel as u128 + a * d / (MICROS as u128);
        assert(vel * d <= 0x1_0000_0000_0000_0000u128 * 0xffff_ffffu128) by (nonlinear_arith)
            requires
                vel <= 0x1_0000_0000_0000_0000u128,
                d <= 0xffff_ffffu128,
        ;
        let pos = self.rocket_pos as u128 + vel * d / (MICROS as u128);
        if pos >= n * (ONE as u128) {
            self.rocket_pos = 0;
            self.rocket_vel = 0;
            self.elapsed = 0;
        } else {
            if d > 0 {
                assert(vel <= n * ONE * MICROS) by (nonlinear_arith)
                    requires
                        vel * d / (MICROS as int) < n * ONE,
                        d >= 1,
                        vel >= 0,
                ;
            }
            self.rocket_pos = pos as u64;
            self.rocket_vel = vel as u64;
            self.elapsed = elapsed;
        }
    }

    /// The part of the state that the spark pass changes.
    pub closed spec fn exhaust(&self) -> Exhaust {
        Exhaust {
            sparks: self.sparks@,
            r: self.pixels_r@,
            g: self.pixels_g@,
            b: self.pixels_b@,
            seed: self.rng_seed,
        }
    }

    /// Works on spark `j` for a step of `dt`, with the body at `home`.
    fn update_spark(&mut self, j: usize, home: u64, dt: u32)
        requires
            rocket_ok(old(self)@),
            j < old(self).sparks.len(),
            home < old(self).num_leds * ONE,
        ensures
            final(self).exhaust() == spark_step(
                old(self).num_leds as int,
                old(self).multi_color,
                old(self).exhaust(),
                j as int,
                home as int,
                dt as int,
            ),
            rocket_ok(final(self)@),
            final(self)@ == (RocketView {
                sparks: final(self)@.sparks,
                r: final(self)@.r,
                g: final(self)@.g,
                b: final(self)@.b,
                seed: final(self)@.seed,
                ..old(self)@
            }),
    {
        proof {
            reveal(spark_step);
        }
        let n = self.num_leds as u64;
        assert(spark_ok(self.sparks@[j as int], n as int));
        let (sp, seed) = revive(self.sparks[j], self.rng_seed, home, self.multi_color, n);
        assert(9 * dt * ONE <= 9 * 0xffff_ffffu64 * 65536) by (nonlinear_arith)
            requires
                dt <= 0xffff_ffffu64,
        ;
        assert(MICROS * n <= 1000000 * 65535) by (nonlinear_arith)
            requires
                n <= 65535,
        ;
        let loss = 9 * (dt as u64) * (ONE as u64) / (MICROS * n);
        let e: u32 = if sp.energy as u64 > loss { (sp.energy as u64 - loss) as u32 } else { 0 };
        let drop = fall_of(e, dt);
        if drop > sp.pos {
            self.sparks.set(j, Spark { energy: 0, pos: home, ..sp });
            self.rng_seed = seed;
        } else {
            let pos = sp.pos - drop;
            let base = if self.multi_color { sp.hue } else { EXHAUST_HUE };
            assert((e as int) * (e as int) <= 0x4_0000_0000) by (nonlinear_arith)
                requires
                    e <= 2 * ONE,
            ;
            let v = ((e as u64) * (e as u64) / (ONE as u64)) as u32;
            let (c, seed2) = glow_of(v, base, seed);
            let i = (pos / (ONE as u64)) as usize;
            add_to(&mut self.pixels_r, i, c.0);
            add_to(&mut self.pixels_g, i, c.1);
            add_to(&mut self.pixels_b, i, c.2);
            self.sparks.set(j, Spark { energy: e, pos, ..sp });
            self.rng_seed = seed2;
        }
        proof {
            assert forall|i: int| 0 <= i < self.sparks@.len() implies spark_ok(#[trigger] self.sparks@[i], n as int) by {
                if i != j {
                    assert(spark_ok(old(self).sparks@[i], n as int));
                }
            }
        }
    }
}

/// Brings a spark with no energy left back to life at `home`.
fn revive(sp: Spark, seed: u32, home: u64, multi_color: bool, n: u64) -> (r: (Spark, u32))
    requires
        spark_ok(sp, n as int),
        home < n * ONE,
    ensures
        r == revived(sp, seed, home as int, multi_color),
        spark_ok(r.0, n as int),
{
    proof {
        reveal(revived);
    }
    if sp.energy == 0 {
        let mut s = seed;
        let a = next_random(&mut s);
        let energy = ONE + a * 2 / 5;
        if multi_color {
            let b = next_random(&mut s);
            (Spark { energy, pos: home, hue: b * 6 }, s)
        } else {
            (Spark { energy, pos: home, hue: sp.hue }, s)
        }
    } else {
        (sp, seed)
    }
}

/// How far a spark of energy `e` falls in a step of `dt`.
fn fall_of(e: u32, dt: u32) -> (d: u64)
    requires
        e <= 2 * ONE,
    ensures
        d == fall(e as int, dt as int),
{
    assert((e as int) * (e as int) <= 0x4_0000_0000) by (nonlinear_arith)
        requires
            e <= 2 * ONE,
    ;
    let ee = (e as u128) * (e as u128);
    let t = dt as u128;
    assert(ee * t <= 0x4_0000_0000u128 * 0xffff_ffffu128) by (nonlinear_arith)
        requires
            ee <= 0x4_0000_0000u128,
            t <= 0xffff_ffffu128,
    ;
    assert(ee * t / ((ONE as int) * 100000) <= 0x4_0000_0000u128 * 0xffff_ffffu128 / 6553600000) by (nonlinear_arith)
        requires
            ee * t <= 0x4_0000_0000u128 * 0xffff_ffffu128,
    ;
    (ee * t / ((ONE as u128) * 100000)) as u64
}

/// The color a spark of brightness `v` adds, and the generator after it.
fn glow_of(v: u32, base: u32, seed: u32) -> (r: ((u32, u32, u32), u32))
    requires
        base < HUE_TURN,
    ensures
        ({
            let (c, s) = glow(v as int, base as int, seed);
            r.0.0 == c.0 && r.0.1 == c.1 && r.0.2 == c.2 && r.1 == s
        }),
{
    proof {
        reveal(glow);
    }
    let mut s = seed;
    let mut h = base;
    if v < ONE / 2 {
        let c = next_random(&mut s);
        h = base + HUE_TENTH + c * 6 / 5;
    }
    let val = if v > ONE { ONE } else { v };
    let sat: u32 = if v as u64 >= SAT_CEILING {
        0
    } else if SAT_CEILING - v as u64 > ONE as u64 {
        ONE
    } else {
        (SAT_CEILING - v as u64) as u32
    };
    (hsv_to_rgb(h, sat, val), s)
}

/// Draws a new spark for a pool on `n` pixels.
fn spawn_spark(seed: &mut u32, n: usize) -> (sp: Spark)
    requires
        1 <= n <= MAX_LEDS,
    ensures
        (sp, *final(seed)) == spawn(*old(seed), n as int),
        spark_ok(sp, n as int),
{
    let a = next_random(seed);
    let b = next_random(seed);
    let c = next_random(seed);
    assert(a * n < ONE * n) by (nonlinear_arith)
        requires
            a < ONE,
            n >= 1,
    ;
    Spark { pos: (a as u64) * (n as u64), energy: ONE - a + b * 2 / 5, hue: c * 6 }
}

/// The body goes back to rest at the bottom, with its clock restarted, on
/// exactly the step where it would otherwise reach or pass the top of the
/// strip; on any other step it moves as integrated.
pub proof fn lemma_rocket_reset(s: RocketView, dt: u32)
    requires
        rocket_ok(s),
    ensures
        next_pos(s, dt as int) >= s.num_leds * ONE ==> {
            let t = rocket_step(s, dt as int);
            t.pos == 0 && t.vel == 0 && t.elapsed == 0
        },
        next_pos(s, dt as int) < s.num_leds * ONE ==> {
            let t = rocket_step(s, dt as int);
            t.pos == next_pos(s, dt as int) && t.vel == next_vel(s, dt as int)
        },
{
}

/// Cooling shrinks every positive accumulator and keeps zero at zero.
proof fn lemma_cooling_shrinks(v: u64, cf: int)
    requires
        0 <= cf <= COOL_MAX,
    ensures
        (v * cf / (ONE as int)) as u64 <= v,
        v > 0 ==> (v * cf / (ONE as int)) < v,
{
    assert(v * cf / (ONE as int) <= v) by (nonlinear_arith)
        requires
            0 <= cf <= COOL_MAX,
            v >= 0,
    ;
    assert(v > 0 ==> v * cf / (ONE as int) < v) by (nonlinear_arith)
        requires
            0 <= cf <= COOL_MAX,
            v >= 0,
    ;
}

/// On a step where no spark lights pixel `k` and the body does not cover
/// it, each of the pixel's accumulators decreases, strictly unless it is
/// already 0; so repeated such steps take it down towards 0.
pub proof fn lemma_rocket_cooling(s: RocketView, dt: u32, k: int)
    requires
        rocket_ok(s),
        0 <= k < s.num_leds,
        !spark_lands_on(s, dt as int, k),
        !(flown(s, dt as int).pos / (ONE as int) <= k < flown(s, dt as int).pos / (ONE as int) + s.rocket_size),
    ensures
        ({
            let t = rocket_step(s, dt as int);
            &&& t.r[k] <= s.r[k]
            &&& t.g[k] <= s.g[k]
            &&& t.b[k] <= s.b[k]
            &&& s.r[k] > 0 ==> t.r[k] < s.r[k]
            &&& s.g[k] > 0 ==> t.g[k] < s.g[k]
            &&& s.b[k] > 0 ==> t.b[k] < s.b[k]
        }),
{
    let cf = cool_factor(dt as int);
    let x0 = cooled_exhaust(s, dt as int);
    let home = flown(s, dt as int).pos;
    assert forall|j: nat| j < active_sparks(s) implies #[trigger] landing(
        s.num_leds,
        s.multi_color,
        sparks_upto(s.num_leds, s.multi_color, x0, j, home, dt as int),
        j as int,
        home,
        dt as int,
    ) != Some(k) by {
        assert(exhaust_before(s, dt as int, j) == sparks_upto(s.num_leds, s.multi_color, x0, j, home, dt as int));
    }
    lemma_sparks_elsewhere(s.num_leds, s.multi_color, x0, active_sparks(s) as nat, home, dt as int, k);
    lemma_cooling_shrinks(s.r[k], cf);
    lemma_cooling_shrinks(s.g[k], cf);
    lemma_cooling_shrinks(s.b[k], cf);
}

impl LedEffect for RocketEffect {
    open spec fn well_formed(&self) -> bool {
        rocket_ok(self@)
    }

    open spec fn in_strip(&self, index: nat) -> bool {
        index < self@.num_leds
    }

    open spec fn advanced(&self, next: &Self, delta: u32) -> bool {
        next@ == rocket_step(self@, delta as int)
    }

    open spec fn color_at(&self, index: nat) -> Rgb {
        Rgb {
            r: byte_of(self@.r[index as int] as int) as u8,
            g: byte_of(self@.g[index as int] as int) as u8,
            b: byte_of(self@.b[index as int] as int) as u8,
        }
    }

    open spec fn label(&self) -> Seq<char> {
        "Rocket"@
    }

    fn before_render(&mut self, delta: u32) {
        let ghost s = self@;
        let cf: u64 = if delta == 0 || 10000 * (ONE as u64) / (delta as u64) > COOL_MAX {
            COOL_MAX
        } else {
            10000 * (ONE as u64) / (delta as u64)
        };
        cool(&mut self.pixels_r, cf);
        cool(&mut self.pixels_g, cf);
        cool(&mut self.pixels_b, cf);
        self.fly(delta);
        let ghost f = self@;
        let ghost x0 = self.exhaust();
        let home = self.rocket_pos;
        assert(self.max_sparks * self.rocket_size <= 65535 * 65535) by (nonlinear_arith)
            requires
                self.max_sparks <= 65535,
                self.rocket_size <= 65535,
        ;
        let effective = (self.max_sparks as u64) * (self.rocket_size as u64) / 20;
        let count = if effective < self.sparks.len() as u64 { effective as usize } else { self.sparks.len() };
        let mut k: usize = 0;
        while k < count
            invariant
                k <= count <= self.sparks.len(),
                count == active_sparks(s),
                home == f.pos,
                f.num_leds == s.num_leds,
                f.multi_color == s.multi_color,
                rocket_ok(self@),
                self@ == (RocketView {
                    sparks: self@.sparks,
                    r: self@.r,
                    g: self@.g,
                    b: self@.b,
                    seed: self@.seed,
                    ..f
                }),
                self.exhaust() == sparks_upto(s.num_leds, s.multi_color, x0, k as nat, home as int, delta as int),
            decreases count - k,
        {
            let ghost before = self.exhaust();
            self.update_spark(k, home, delta);
            assert(self.num_leds == s.num_leds && self.multi_color == s.multi_color);
            assert(sparks_upto(s.num_leds, s.multi_color, x0, (k + 1) as nat, home as int, delta as int)
                == spark_step(s.num_leds, s.multi_color, before, k as int, home as int, delta as int));
            k = k + 1;
        }
        let c = hsv_to_rgb(0, 0, ONE);
        paint(&mut self.pixels_r, home, self.rocket_size, c.0);
        paint(&mut self.pixels_g, home, self.rocket_size, c.1);
        paint(&mut self.pixels_b, home, self.rocket_size, c.2);
    }

    fn render(&self, index: usize, num_leds: usize) -> (c: Rgb) {
        Rgb {
            r: channel_to_byte(self.pixels_r[index]),
            g: channel_to_byte(self.pixels_g[index]),
            b: channel_to_byte(self.pixels_b[index]),
        }
    }

    fn name(&self) -> (n: &'static str) {
        proof {
            reveal_strlit("Rocket");
        }
        "Rocket"
    }
}

} // verus!
