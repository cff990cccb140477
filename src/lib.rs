//! A simulated waveform generator / fast measurement unit: named voltage
//! patterns are built up as timed samples, tiled into sequences, and read back
//! as captured measurements, all in memory.
//!
//! Physical quantities are held as fixed-point integers: time in ticks of
//! 10 ns, voltage in microvolts and current in nanoamperes.
pub mod laws;
pub mod status;
pub mod store;
pub mod timeline;
