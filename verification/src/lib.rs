//! Rendering of YM3438 (OPN2C) VGM streams into channel-separated PCM.

pub mod stream;
pub mod timing;
pub mod plan;
pub mod loop_point;
pub mod header;
pub mod seek;
pub mod pcm;
pub mod chip;
pub mod render;
pub mod mix;
pub mod input;
pub mod laws;
pub mod command_laws;
