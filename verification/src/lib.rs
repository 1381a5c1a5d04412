//! A streaming region-tracking and multi-variant replacement engine.
//!
//! The library locates a rectangular region of interest across a sequence of
//! frames and replaces its content with generated material, producing one
//! frame-aligned output stream per named content variant.  Recognition,
//! content generation and container I/O are external capabilities: callers
//! hand the engine plain detection outcomes and pixel buffers, and the engine
//! decides, for every frame, which rectangle (if any) is replaced and what
//! every output stream receives.

pub mod cache;
pub mod compositor;
pub mod frame;
pub mod geometry;
pub mod error;
pub mod interval;
pub mod payload;
pub mod run;
pub mod tracker;
