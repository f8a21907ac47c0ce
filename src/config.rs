use vstd::prelude::*;

verus! {

/// Size of the window, in pixels.
pub struct ScreenConfig {
    pub width: i32,
    pub height: i32,
}

/// Paths of the texture and height map images.
pub struct MapConfig {
    pub texture: String,
    pub heightmap: String,
}

/// Settings of the draw pass.
#[derive(Copy, Clone, Debug)]
pub struct RendererConfig {
    /// Whether far terrain fades toward the sky colour.
    pub fog: bool,
    /// Depth at which the fog starts.
    pub fog_start: i32,
    /// Depths from 1 up to, not including, this one are drawn.
    pub distance_max: i32,
    /// Whether the terrain is sampled with bilinear interpolation.
    pub enable_hm_filtering: bool,
}

/// Why the configuration could not be read.
#[derive(Debug)]
pub struct ConfigError {
    pub message: String,
}

} // verus!
