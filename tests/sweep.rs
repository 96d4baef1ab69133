use led_effects::color::Rgb;
use led_effects::sweep::sweep_color;

#[test]
fn sweep_red_at_full_level() {
    assert_eq!(sweep_color(0, 255), Rgb::new(255, 0, 0));
}

#[test]
fn sweep_applies_gamma() {
    // smart-leds gives (252, 255, 0) for hue 43; gamma maps 252 to 247.
    assert_eq!(sweep_color(43, 255), Rgb::new(247, 255, 0));
}

#[test]
fn sweep_dims_to_level() {
    assert_eq!(sweep_color(0, 10), Rgb::new(10, 0, 0));
    assert_eq!(sweep_color(43, 10), Rgb::new(10, 10, 0));
    assert_eq!(sweep_color(0, 0), Rgb::new(0, 0, 0));
}
