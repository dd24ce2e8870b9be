//! Simulation core of a voxel world: blocks, their evaluation, change
//! notification, grid storage and incremental light propagation.

pub mod block;
pub mod blockgen;
pub mod builder;
pub mod color;
pub mod grid;
pub mod indirection;
pub mod light;
pub mod lighting;
pub mod listen;
pub mod notification;
pub mod space;
pub mod universe;
