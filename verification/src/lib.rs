//! Core of a real-time graph visualization server: the packed binary node
//! record and its wire codec, graph construction from file metadata, the
//! simulation parameter model, the control state of the physics executors,
//! and the per-client session state machine.
//!
//! Floating-point tunables and coordinates are carried through the verified
//! core as IEEE-754 bit patterns; the numeric physics itself runs outside it.

pub mod builder;
pub mod config;
pub mod gpu;
pub mod graph;
pub mod json;
pub mod metadata;
pub mod params;
pub mod record;
pub mod service;
pub mod session;
pub mod speech;
pub mod text;
