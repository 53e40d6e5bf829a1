//! A single-shot parallel compute dispatch engine for per-element Collatz
//! step counting.
//!
//! The library holds the verified logic of the engine: the per-element step
//! counting algorithm itself, the byte codec used to stage values into and
//! out of device buffers, the dispatch planning rules (buffer sizing and
//! launch shape), the single-use completion signal of the synchronizer, and
//! the rendering of results. An accompanying binary drives a real
//! accelerator through these functions.

pub mod codec;
pub mod collatz;
pub mod engine;
pub mod render;
pub mod server;
