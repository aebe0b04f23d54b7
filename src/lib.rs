//! Time-windowed feature synchronisation for a scrolling audio scatter view.
//!
//! A table of per-frame audio features (time, frequency, loudness) is sliced
//! around the playback clock, each visible row is mapped to a circle in screen
//! space, and a session ends once the clock reaches the audio's duration.
//!
//! All quantities are integers: times are milliseconds, frequency and loudness
//! are fixed-point values in any unit the caller chooses, and screen
//! coordinates are exact fractions.

pub mod clock;
pub mod config;
pub mod geometry;
pub mod session;
pub mod table;
pub mod window;
