//! Rendering of a palette-indexed canvas into RGBA pixels and a PNG file.

pub mod color;
pub mod encoder;
pub mod error;
pub mod info;
pub mod mapper;
pub mod naming;
pub mod render;
