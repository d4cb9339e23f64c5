//! Road simulation and scanline rasterizer for a pseudo-3D racing game.
//!
//! All world and screen quantities are 16.16 fixed-point integers (see
//! [`fixed`]): a value `v` stands for `v / 65536`.
pub mod fixed;
mod convert;
pub mod depth;
pub mod render;
pub mod track;
pub mod project;
pub mod query;
pub mod laws;
