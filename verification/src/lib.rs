//! Host telemetry snapshot library.
//!
//! Samples of CPU, RAM, GPU and VRAM figures are normalized into a fixed-size
//! record for a constrained downstream consumer. The heart of the crate is the
//! GPU discovery subsystem: an ordered chain of vendor/OS-specific probes, each
//! with a verified parser for the ad hoc text or XML format its diagnostic
//! tool emits, plus the shared fixed-point unit-scaling logic applied to both
//! RAM and VRAM magnitudes.

pub mod chain;
pub mod gpu;
pub mod nvidia;
pub mod snapshot;
pub mod text;
pub mod units;
