//! Renders a stream of raw RGB video frames as ASCII art.
pub mod demux;
pub mod frame;
pub mod glyph;
pub mod metadata;
pub mod playback;
pub mod render;
