//! Core of a marker-rendering benchmark: a deterministic generator for a
//! synthetic set of labeled geographic points, a rolling average over recent
//! frame times, and the per-frame driver that toggles between an ungrouped
//! and a grouped rendering mode while keeping the measurements fair. The map
//! widget, the window and the input handling live outside this crate; the
//! state they drive and the numbers they display are specified and proved
//! here.

pub mod ring;
pub mod rng;
pub mod points;
pub mod bench;
