//! CPU-side image data for a renderer: pixel formats and their block geometry,
//! images that are static, empty or updated in place, mip chains, a reader for
//! KTX2 containers, and the schedule of a batch of mip generation.

pub mod error;
pub mod format;
pub mod image;
pub mod ktx;
pub mod mip;
pub mod mipmap;
pub mod shared;
pub mod text;
