//! Decoding video and handing it to the GPU.

pub mod decoder;
pub mod frame;
pub mod texture;
