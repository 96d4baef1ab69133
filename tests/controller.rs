use led_effects::color::{Rgb, ONE};
use led_effects::controller::{same_text, Effect, EffectController, SwitchRequest};
use led_effects::effect::LedEffect;
use led_effects::pie::pie_corner;
use led_effects::police_dot::PoliceDot;
use led_effects::police_trail::PoliceTrail;
use led_effects::solid::SolidColor;

fn three() -> EffectController {
    let mut c = EffectController::new();
    c.add_effect(Effect::Solid(SolidColor::new(Rgb::new(255, 0, 0))));
    c.add_effect(Effect::Dot(PoliceDot::new(ONE, 2, 16).unwrap()));
    c.add_effect(Effect::Trail(PoliceTrail::new(ONE, 2, 8, 16).unwrap()));
    c
}

#[test]
fn first_registration_is_active() {
    let mut c = EffectController::new();
    assert_eq!(c.len(), 0);
    c.add_effect(Effect::Dot(PoliceDot::new(ONE, 2, 16).unwrap()));
    assert_eq!(c.current_index(), 0);
    assert_eq!(c.get_current_effect().name(), "PoliceDot");
}

#[test]
fn advance_cycles_in_registration_order() {
    let mut c = three();
    assert_eq!(c.current_effect().name(), "Solid Color");
    c.next_effect();
    assert_eq!(c.current_effect().name(), "PoliceDot");
    c.next_effect();
    assert_eq!(c.current_effect().name(), "PoliceTrail");
    c.next_effect();
    assert_eq!(c.current_index(), 0);
    assert_eq!(c.current_effect().name(), "Solid Color");
}

#[test]
fn unknown_name_changes_nothing() {
    let mut c = three();
    c.next_effect();
    assert!(!c.set_effect_by_name("nonexistent"));
    assert_eq!(c.current_index(), 1);
    assert!(!c.set_effect_by_name(""));
    assert_eq!(c.current_index(), 1);
}

#[test]
fn known_name_activates_it() {
    let mut c = three();
    assert!(c.set_effect_by_name("PoliceTrail"));
    assert_eq!(c.current_index(), 2);
    assert!(c.set_effect_by_name("Solid Color"));
    assert_eq!(c.current_index(), 0);
}

#[test]
fn first_of_equal_names_wins() {
    let mut c = three();
    c.add_effect(Effect::Dot(PoliceDot::new(ONE, 4, 16).unwrap()));
    c.next_effect();
    c.next_effect();
    c.next_effect();
    assert_eq!(c.current_index(), 3);
    assert!(c.set_effect_by_name("PoliceDot"));
    assert_eq!(c.current_index(), 1);
}

#[test]
fn frame_comes_from_active_effect() {
    let mut c = three();
    let frame = c.render_frame(50_000, 16);
    assert_eq!(frame, vec![Rgb::new(255, 0, 0); 16]);
    c.next_effect();
    let frame = c.render_frame(250_000, 16);
    assert_eq!(frame.len(), 16);
    assert_eq!(frame[4], Rgb::new(255, 0, 0));
    assert_eq!(frame[12], Rgb::new(0, 0, 255));
    assert_eq!(frame[0], Rgb::new(0, 0, 0));
}

#[test]
fn active_effect_advances_in_place() {
    let mut c = three();
    c.next_effect();
    c.get_current_effect().before_render(250_000);
    assert_eq!(c.current_effect().render(4, 16), Rgb::new(255, 0, 0));
}

#[test]
fn text_comparison() {
    assert!(same_text("Rocket", "Rocket"));
    assert!(!same_text("Rocket", "rocket"));
    assert!(!same_text("Rocket", "Rock"));
    assert!(same_text("", ""));
    assert!(same_text("Grüße", "Grüße"));
}

#[test]
fn pie_sits_above_middle() {
    assert_eq!(pie_corner(296, 128), (98, 24));
    assert_eq!(pie_corner(0, 0), (-50, -40));
}

#[test]
fn pending_requests() {
    let mut c = three();
    assert!(!c.apply_request(None));
    assert_eq!(c.current_index(), 0);
    assert!(c.apply_request(Some(SwitchRequest::Next)));
    assert_eq!(c.current_index(), 1);
    assert!(c.apply_request(Some(SwitchRequest::ByName("PoliceTrail".to_string()))));
    assert_eq!(c.current_index(), 2);
    assert!(!c.apply_request(Some(SwitchRequest::ByName("Rainbow".to_string()))));
    assert_eq!(c.current_index(), 2);
}

#[test]
fn first_police_dot_after_quarter_cycle() {
    let mut c = EffectController::new();
    c.add_effect(Effect::Dot(PoliceDot::new(ONE, 2, 16).unwrap()));
    c.add_effect(Effect::Solid(SolidColor::new(Rgb::new(0, 0, 255))));
    c.add_effect(Effect::Dot(PoliceDot::new(2 * ONE, 3, 16).unwrap()));
    c.next_effect();
    assert!(c.set_effect_by_name("PoliceDot"));
    assert_eq!(c.current_index(), 0);
    c.get_current_effect().before_render(250_000);
    assert_eq!(c.current_effect().render(4, 16), Rgb::new(255, 0, 0));
}
