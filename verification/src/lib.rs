//! A small real-time rendering host: an archetype-partitioned entity store,
//! the camera query built on it, and the decisions of the surface manager,
//! the frame renderer and the window shell.
//!
//! Single-precision numbers are carried as their IEEE 754 bit patterns
//! (`u32`), so every value the store moves is preserved bit for bit.

pub mod components;
pub mod entity;
pub mod graphics;
pub mod linear;
pub mod queries;
pub mod resources;
pub mod row;
pub mod shell;
pub mod systems;
pub mod table;
pub mod laws;
pub mod world;
