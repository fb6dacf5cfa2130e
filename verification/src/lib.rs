//! Core of a crash-triage driver for an external debugger.
//!
//! A debugger run intermingles its own console transcript, the triaged
//! program's output and the structured triage payload on two streams.  This
//! crate defines the marker protocol that brackets each region with unique
//! sentinels, slices the captured streams on those sentinels, and
//! deserializes the bracketed payload into a typed crash report.  Spawning
//! the debugger and provisioning the triage script on disk are left to the
//! embedding program; the logic here works on plain captured values.

pub mod driver;
pub mod json;
pub mod marker;
pub mod marker_laws;
pub mod report;
pub mod text;
