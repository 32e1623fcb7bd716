//! Direction, animation and loading-gate logic for a keyboard-driven 2D
//! character, stated over integers and proved with Verus.
//!
//! The host samples the keys and the clock once a frame and hands them in
//! as plain values; what comes back is which frame to show, where the
//! character stands, how far the loading has come and whether the loading
//! screen is to go. Time is a whole number of the host's time unit and a
//! position a whole number of its smallest length, so every result is
//! exact.
//!
//! - [`direction`]: the eight facing directions and the sector that a
//!   movement vector falls in.
//! - [`intent`]: the intent vector of the four movement keys.
//! - [`timer`]: the repeating timer that paces an animation.
//! - [`frames`]: the table from state and direction to frames.
//! - [`character`]: the animator that steers and animates a character.
//! - [`motion`]: movement at constant speed, diagonal or straight.
//! - [`loading`]: the loading ramp and its completion signal.

pub mod character;
pub mod direction;
pub mod frames;
pub mod intent;
pub mod loading;
pub mod motion;
pub mod timer;
