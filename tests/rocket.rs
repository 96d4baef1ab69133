use led_effects::color::{Rgb, ONE};
use led_effects::effect::{ConfigError, LedEffect};
use led_effects::rocket::{next_random, RocketEffect, DEFAULT_SEED};

#[test]
fn generator_steps() {
    let mut seed: u32 = 12345;
    let x = next_random(&mut seed);
    assert_eq!(seed, 12345u32.wrapping_mul(1664525).wrapping_add(1013904223));
    assert_eq!(x, seed >> 16);
    let y = next_random(&mut seed);
    assert_ne!(x, y);
}

#[test]
fn rocket_rejects_empty_strip() {
    assert_eq!(RocketEffect::new(0).err(), Some(ConfigError::EmptyStrip));
    assert_eq!(RocketEffect::with_seed(70000, 1).err(), Some(ConfigError::StripTooLong));
}

#[test]
fn rocket_starts_dark_at_rest() {
    let r = RocketEffect::new(16).unwrap();
    assert_eq!((r.position(), r.velocity(), r.elapsed_micros()), (0, 0, 0));
    for i in 0..16 {
        assert_eq!(r.render(i, 16), Rgb::new(0, 0, 0));
    }
    assert_eq!(r.name(), "Rocket");
}

#[test]
fn rocket_first_step_paints_body() {
    let mut r = RocketEffect::new(16).unwrap();
    r.before_render(50_000);
    // Acceleration 2 * 16 / 5^2 pixels per second squared.
    assert_eq!(r.velocity(), 4194);
    assert_eq!(r.position(), 209);
    assert_eq!(r.elapsed_micros(), 50_000);
    for i in 0..5 {
        assert_eq!(r.render(i, 16), Rgb::new(255, 255, 255));
    }
    for i in 5..16 {
        assert_eq!(r.render(i, 16), Rgb::new(0, 0, 0));
    }
}

#[test]
fn rocket_resets_at_the_top() {
    let mut r = RocketEffect::new(16).unwrap();
    r.before_render(1_000_000);
    assert_eq!((r.position(), r.velocity()), (83886, 83886));
    // The boost is on now; this step would carry the body past the top.
    r.before_render(500_000);
    assert_eq!((r.position(), r.velocity(), r.elapsed_micros()), (0, 0, 0));
    let mut s = RocketEffect::new(16).unwrap();
    s.before_render(10_000_000);
    assert_eq!((s.position(), s.velocity(), s.elapsed_micros()), (0, 0, 0));
}

#[test]
fn rocket_glow_cools() {
    let mut r = RocketEffect::new(16).unwrap();
    r.before_render(1_000_000);
    assert_eq!(r.accumulator(5), (ONE as u64, ONE as u64, ONE as u64));
    r.before_render(500_000);
    // Cooling factor 0.1 / (0.5 * 10) = 0.02 of ONE, i.e. 1310.
    assert_eq!(r.accumulator(5), (1310, 1310, 1310));
    assert_eq!(r.render(5, 16), Rgb::new(5, 5, 5));
    let mut last = r.accumulator(5).0;
    // The body stays below pixel 1 for the next second.
    for _ in 0..40 {
        r.before_render(20_000);
        let now = r.accumulator(5).0;
        assert!(now < last || now == 0);
        last = now;
    }
    assert_eq!(last, 0);
}

#[test]
fn rocket_sparks_glow_below_body() {
    let mut r = RocketEffect::new(60).unwrap();
    for _ in 0..40 {
        r.before_render(50_000);
    }
    let start = (r.position() / ONE as u64) as usize;
    let glowing = (0..60).filter(|&i| (i < start || i >= start + 5) && r.accumulator(i) != (0, 0, 0)).count();
    assert!(glowing > 0);
}

#[test]
fn rocket_is_deterministic_per_seed() {
    let mut a = RocketEffect::with_seed(60, 7).unwrap();
    let mut b = RocketEffect::with_seed(60, 7).unwrap();
    let mut c = RocketEffect::new(60).unwrap();
    let mut d = RocketEffect::with_seed(60, DEFAULT_SEED).unwrap();
    for _ in 0..30 {
        for e in [&mut a, &mut b, &mut c, &mut d] {
            e.before_render(40_000);
        }
    }
    for i in 0..60 {
        assert_eq!(a.accumulator(i), b.accumulator(i));
        assert_eq!(c.accumulator(i), d.accumulator(i));
    }
}

#[test]
fn rocket_multi_color_runs() {
    let mut plain = RocketEffect::with_seed(60, 3).unwrap();
    let mut multi = RocketEffect::with_seed(60, 3).unwrap();
    multi.set_multi_color(true);
    for _ in 0..60 {
        plain.before_render(40_000);
        multi.before_render(40_000);
    }
    assert!((0..60).any(|i| plain.accumulator(i) != multi.accumulator(i)));
}
