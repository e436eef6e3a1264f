//! Tiles from Zarr stores.

pub mod attributes;
pub mod cache;
pub mod config;
pub mod cube;
pub mod dims;
pub mod error;
pub mod floats;
pub mod interval;
pub mod laws;
pub mod map;
pub mod nodes;
pub mod png;
pub mod sample;
pub mod source;
pub mod text;
pub mod time;
pub mod warp;
