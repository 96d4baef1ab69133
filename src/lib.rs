//! A small rendering engine for addressable LED strips.
//!
//! Effects turn elapsed time into one color per pixel; an
//! `EffectController` holds the registered effects and the active one.
//! All arithmetic is fixed point: fractions are counted in 1/65536
//! (`color::ONE`), hues in 1/393216 of a turn (`color::HUE_TURN`, six
//! sectors of `color::ONE` each), and time in microseconds.
pub mod color;
pub mod effect;
pub mod solid;
pub mod police_dot;
pub mod police_trail;
pub mod drogen;
pub mod rocket;
pub mod controller;
pub mod pie;
pub mod sweep;
