//! Frame-by-frame synchronisation between an entity world and a planar
//! rigid-body simulation.
//!
//! The simulation itself lives elsewhere. This crate holds the rules that
//! decide, once per frame, which bodies are created, which poses are copied
//! into transforms, which impulses are handed on, and when the simulation may
//! advance. Every number that the simulation measures is carried as a raw
//! 32-bit word and moved, never computed with.

pub mod scalar;
pub mod error;
pub mod transform;
pub mod binding;
pub mod impulse;
pub mod world;
pub mod entity;
pub mod frame;
pub mod input;
pub mod processor;
pub mod laws;
pub mod texture;
pub mod mesh;
pub mod names;
