use led_effects::color::{Rgb, ONE};
use led_effects::drogen::{DrogenEffect, WAVE_TABLE_LEN};
use led_effects::effect::{ConfigError, LedEffect, MAX_LEDS};
use led_effects::police_dot::{in_range, PoliceDot};
use led_effects::police_trail::PoliceTrail;
use led_effects::solid::SolidColor;

fn sine_table() -> Vec<u32> {
    (0..WAVE_TABLE_LEN)
        .map(|k| {
            let x = 0.5 + 0.5 * (std::f64::consts::PI * k as f64 / 256.0).sin();
            ((x * 65536.0).round() as u32).min(ONE)
        })
        .collect()
}

#[test]
fn solid_color_ignores_time() {
    let mut e = SolidColor::new(Rgb::new(255, 0, 0));
    for i in 0..16 {
        assert_eq!(e.render(i, 16), Rgb::new(255, 0, 0));
    }
    for dt in [0u32, 1, 50_000, 4_000_000_000] {
        e.before_render(dt);
        assert_eq!(e.render(0, 1), Rgb::new(255, 0, 0));
        assert_eq!(e.render(7, 8), Rgb::new(255, 0, 0));
    }
    assert_eq!(e.name(), "Solid Color");
}

#[test]
fn wrap_around_membership() {
    let inside: Vec<usize> = (0..16).filter(|&i| in_range(i, 14, 2, 16)).collect();
    assert_eq!(inside, vec![0, 1, 2, 14, 15]);
}

#[test]
fn plain_membership() {
    let inside: Vec<usize> = (0..16).filter(|&i| in_range(i, 3, 5, 16)).collect();
    assert_eq!(inside, vec![3, 4, 5]);
    assert!(in_range(4, 4, 4, 16));
    assert!(!in_range(5, 4, 4, 16));
}

fn lit(d: &PoliceDot, n: usize) -> (Vec<usize>, Vec<usize>) {
    let red = (0..n).filter(|&i| d.render(i, n).r == 255).collect();
    let blue = (0..n).filter(|&i| d.render(i, n).b == 255).collect();
    (red, blue)
}

#[test]
fn police_dot_spans() {
    let d = PoliceDot::new(ONE, 2, 16).unwrap();
    assert_eq!(lit(&d, 16), (vec![0, 1, 2], vec![8, 9, 10]));
    assert_eq!(d.render(0, 16), Rgb::new(255, 0, 0));
    assert_eq!(d.render(5, 16), Rgb::new(0, 0, 0));
    assert_eq!(d.name(), "PoliceDot");
}

#[test]
fn police_dot_moves_and_wraps() {
    let mut d = PoliceDot::new(ONE, 2, 16).unwrap();
    d.before_render(250_000);
    assert_eq!(lit(&d, 16), (vec![4, 5, 6], vec![12, 13, 14]));
    d.before_render(500_000);
    assert_eq!(lit(&d, 16), (vec![12, 13, 14], vec![4, 5, 6]));
    d.before_render(125_000);
    assert_eq!(lit(&d, 16), (vec![0, 14, 15], vec![6, 7, 8]));
}

#[test]
fn police_dot_returns_after_one_period() {
    // Half a cycle per second: the period is two seconds.
    let mut d = PoliceDot::new(ONE / 2, 3, 20).unwrap();
    let start = lit(&d, 20);
    for _ in 0..40 {
        d.before_render(50_000);
    }
    assert_eq!(lit(&d, 20), start);
    let mut e = PoliceDot::new(ONE / 2, 3, 20).unwrap();
    e.before_render(1_300_000);
    e.before_render(700_000);
    assert_eq!(lit(&e, 20), start);
}

#[test]
fn police_dot_two_half_second_ticks() {
    let mut d = PoliceDot::new(ONE, 2, 16).unwrap();
    d.before_render(500_000);
    assert_eq!(lit(&d, 16), (vec![8, 9, 10], vec![0, 1, 2]));
    d.before_render(500_000);
    assert_eq!(d.render(0, 16), Rgb::new(255, 0, 0));
    assert_eq!(d.render(2, 16), Rgb::new(255, 0, 0));
    assert_eq!(d.render(8, 16), Rgb::new(0, 0, 255));
    assert_eq!(d.render(3, 16), Rgb::new(0, 0, 0));
}

#[test]
fn police_dot_rejects_bad_strips() {
    assert_eq!(PoliceDot::new(ONE, 2, 0).err(), Some(ConfigError::EmptyStrip));
    assert_eq!(PoliceDot::new(ONE, 2, MAX_LEDS + 1).err(), Some(ConfigError::StripTooLong));
    assert!(PoliceDot::new(ONE, 2, MAX_LEDS).is_ok());
}

#[test]
fn trail_distance_behind() {
    assert_eq!(PoliceTrail::distance_behind(3, 5, 16), 2);
    assert_eq!(PoliceTrail::distance_behind(5, 5, 16), 0);
    assert_eq!(PoliceTrail::distance_behind(6, 5, 16), 15);
}

#[test]
fn trail_brightness_fades() {
    assert_eq!(PoliceTrail::trail_brightness(0, 8, 2), 255);
    assert_eq!(PoliceTrail::trail_brightness(1, 8, 2), 255);
    assert_eq!(PoliceTrail::trail_brightness(2, 8, 2), 255);
    assert_eq!(PoliceTrail::trail_brightness(3, 8, 2), 223);
    assert_eq!(PoliceTrail::trail_brightness(9, 8, 2), 31);
    assert_eq!(PoliceTrail::trail_brightness(10, 8, 2), 0);
    assert_eq!(PoliceTrail::trail_brightness(5, 0, 0), 0);
}

#[test]
fn police_trail_frame() {
    let mut t = PoliceTrail::new(ONE, 2, 8, 16).unwrap();
    t.before_render(250_000);
    // Red head at 4, blue head at 12.
    assert_eq!(t.render(4, 16), Rgb::new(255, 0, 63));
    assert_eq!(t.render(3, 16), Rgb::new(255, 0, 31));
    assert_eq!(t.render(2, 16), Rgb::new(255, 0, 0));
    assert_eq!(t.render(12, 16), Rgb::new(63, 0, 255));
    assert_eq!(t.render(5, 16), Rgb::new(0, 0, 95));
    assert_eq!(t.name(), "PoliceTrail");
    assert_eq!(PoliceTrail::new(ONE, 2, 8, 0).err(), Some(ConfigError::EmptyStrip));
}

#[test]
fn drogen_rejects_bad_tables() {
    assert_eq!(DrogenEffect::new(16, vec![0; 10]).err(), Some(ConfigError::BadWaveTable));
    let mut t = sine_table();
    t[3] = ONE + 1;
    assert_eq!(DrogenEffect::new(16, t).err(), Some(ConfigError::BadWaveTable));
    assert_eq!(DrogenEffect::new(0, sine_table()).err(), Some(ConfigError::EmptyStrip));
}

#[test]
fn drogen_frame() {
    let mut d = DrogenEffect::new(16, sine_table()).unwrap();
    assert_eq!(d.render(8, 16), Rgb::new(255, 0, 81));
    assert_eq!(d.render(0, 16), Rgb::new(255, 0, 85));
    assert_eq!(d.render(3, 16), Rgb::new(0, 255, 255));
    // Symmetric about the middle.
    for i in 1..8 {
        assert_eq!(d.render(8 - i, 16), d.render(8 + i, 16));
    }
    d.before_render(1_250_000);
    assert_eq!(d.render(8, 16), Rgb::new(88, 255, 0));
    // Exactly a full cycle keeps the phase at one whole cycle, which the
    // raised sine (period 2) tells apart from no phase at all.
    d.before_render(1_250_000);
    assert_eq!(d.render(8, 16), Rgb::new(255, 81, 0));
    // One microsecond on, the phase has wrapped back to the start.
    d.before_render(1);
    assert_eq!(d.render(8, 16), Rgb::new(255, 0, 81));
    assert_eq!(d.name(), "Drogen");
}

#[test]
fn drogen_flat_wave_is_red() {
    let d = DrogenEffect::new(10, vec![0; WAVE_TABLE_LEN]).unwrap();
    for i in 0..10 {
        assert_eq!(d.render(i, 10), Rgb::new(255, 0, 0));
    }
}
