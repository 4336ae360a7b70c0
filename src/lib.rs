//! Timeline and interpolation core for procedural animation: frame-accurate
//! timestamps, exact progress and easing, and animation curves that any
//! lerp-able value type can follow.

pub mod builder;
pub mod easing;
pub mod entity;
pub mod fixed_rate;
pub mod interpolate;
pub mod render;
pub mod sizeable;
pub mod timestamp;
