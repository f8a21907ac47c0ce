//! A voxel-space terrain renderer: fixed-point arithmetic, tiling height
//! and colour grids, and a column-raycasting draw pass whose output is
//! specified pixel by pixel.
pub mod fixed_int;
pub mod terrain;
pub mod camera;
pub mod config;
pub mod renderer;
pub mod stats;
