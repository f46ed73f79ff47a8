//! Per-frame update routines of the extended track.

pub mod demo;
