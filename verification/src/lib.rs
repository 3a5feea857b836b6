//! Deterministic, bounded, bit-quantized sample generation for simulated
//! bus signals, together with a few small verified utilities.
//!
//! Real-world quantities (bounds, scale factors, amplitudes) are carried as
//! fixed-point numbers with a decimal micro-unit resolution, so that every
//! arithmetic step has an exact, provable meaning.

pub mod asgi;
pub mod errors;
pub mod fixed;
pub mod hashing;
pub mod message;
pub mod pager;
pub mod record;
pub mod rng;
pub mod signal;
pub mod signal_generator;
pub mod signal_type;
