use led_effects::color::{channel_to_byte, hsv2rgb, hsv_to_rgb, Rgb, HUE_TURN, ONE};

#[test]
fn primaries_at_sector_starts() {
    let expected = [
        (255, 0, 0),
        (255, 255, 0),
        (0, 255, 0),
        (0, 255, 255),
        (0, 0, 255),
        (255, 0, 255),
    ];
    for (k, &(r, g, b)) in expected.iter().enumerate() {
        assert_eq!(hsv2rgb(k as u32 * ONE, ONE, ONE), Rgb::new(r, g, b), "sector {}", k);
    }
}

fn reference(h: f64, s: f64, v: f64) -> (f64, f64, f64) {
    let h6 = (h - h.floor()) * 6.0;
    let i = h6.floor();
    let f = h6 - i;
    let p = v * (1.0 - s);
    let q = v * (1.0 - f * s);
    let t = v * (1.0 - (1.0 - f) * s);
    match i as i32 % 6 {
        0 => (v, t, p),
        1 => (q, v, p),
        2 => (p, v, t),
        3 => (p, q, v),
        4 => (t, p, v),
        _ => (v, p, q),
    }
}

#[test]
fn sector_boundaries_match_float_reference() {
    let levels = [0u32, 1000, 16384, 32768, 40000, 65535, 65536];
    for k in 0..6u32 {
        for &s in levels.iter() {
            for &v in levels.iter() {
                let c = hsv2rgb(k * ONE, s, v);
                let (r, g, b) = reference(k as f64 / 6.0, s as f64 / 65536.0, v as f64 / 65536.0);
                let want = [(r * 255.0) as i32, (g * 255.0) as i32, (b * 255.0) as i32];
                let got = [c.r as i32, c.g as i32, c.b as i32];
                for ch in 0..3 {
                    assert!((want[ch] - got[ch]).abs() <= 1, "k={} s={} v={} ch={}", k, s, v, ch);
                }
            }
        }
    }
}

#[test]
fn hue_wraps_after_a_full_turn() {
    assert_eq!(hsv2rgb(HUE_TURN, ONE, ONE), hsv2rgb(0, ONE, ONE));
    assert_eq!(hsv2rgb(HUE_TURN + ONE, ONE, ONE), Rgb::new(255, 255, 0));
}

#[test]
fn saturation_and_value_above_one_are_clamped() {
    assert_eq!(hsv2rgb(0, 3 * ONE, 5 * ONE), Rgb::new(255, 0, 0));
}

#[test]
fn zero_saturation_is_grey() {
    assert_eq!(hsv2rgb(12345, 0, ONE / 2), Rgb::new(127, 127, 127));
}

#[test]
fn midpoint_of_first_sector() {
    // Halfway from red to yellow: green is half lit.
    assert_eq!(hsv_to_rgb(ONE / 2, ONE, ONE), (ONE, ONE / 2, 0));
    assert_eq!(hsv2rgb(ONE / 2, ONE, ONE), Rgb::new(255, 127, 0));
}

#[test]
fn channel_bytes() {
    assert_eq!(channel_to_byte(0), 0);
    assert_eq!(channel_to_byte(ONE as u64), 255);
    assert_eq!(channel_to_byte(ONE as u64 / 2), 127);
    assert_eq!(channel_to_byte(10 * ONE as u64), 255);
    assert_eq!(channel_to_byte(u64::MAX), 255);
}
