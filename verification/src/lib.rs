//! Core of STEPS, a simulator of serial-transfer evolution experiments on
//! asexually reproducing bacterial populations.
//!
//! The crate holds the deterministic heart of the simulator: the lineage
//! store, the mutation-provenance tracker, the transfer state machine and the
//! population summaries, each with a proved contract.  Population sizes are
//! carried in whole individuals; other per-lineage measurements (fitness,
//! mutation rate, mean mutation size) are opaque 64-bit words whose encoding
//! the caller fixes, since the store and the tracker never interpret them.
//! Random sampling and the growth arithmetic live in the unverified front
//! end, which feeds their outcomes to the functions here as plain values.

#![allow(non_snake_case)]

pub mod cfg;
pub mod driver;
pub mod io;
pub mod mechanics;
pub mod sequencing;
pub mod summarize;
pub mod types;
