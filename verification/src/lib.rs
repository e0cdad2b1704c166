//! Host-side model of a tiled Gaussian-splat rendering pipeline.
//!
//! The device passes of the renderer exchange plain integer buffers: per-splat
//! tile counts, write offsets, packed sort keys and per-tile ranges. This crate
//! states what each of those buffers must hold and computes them on the host,
//! so that a frame can be planned, sized and checked against small buffers.

pub mod bucket;
pub mod config;
pub mod frame;
pub mod keys;
pub mod materializer;
pub mod projector;
pub mod ranges;
pub mod rasterizer;
pub mod schedule;
pub mod sorter;
