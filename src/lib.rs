//! Binaural rendering of a mono signal: inverse-square attenuation, propagation delay,
//! linear resampling onto the output clock, and per-ear stereo combination.
//!
//! Quantities are exact integers: lengths in millimetres, amplitudes as signed integers
//! in the caller's scale, and time in ticks of `1 / (sample_rate * speed_of_sound)` seconds
//! (see [`acoustics::Acoustics`]).
pub mod geometry;
pub mod acoustics;
pub mod attenuation;
pub mod retime;
pub mod resample;
pub mod mixer;
