//! Core of a load-testing harness for WHEP-style egress sessions.
//!
//! The library holds the decisions of the harness as verified state
//! machines over plain values: rate sampling, resolution of the resource
//! location returned by signaling, the per-session drive step, the
//! per-session event lifecycle, the ramp-up schedule and the dashboard
//! aggregate. The program around it performs the network work.
pub mod bench;
pub mod stats;
pub mod tui;
pub mod whep;
