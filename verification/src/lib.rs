//! Turns a raster image into an ordered plan of pointer clicks and steps a
//! playback worker through that plan under pause, stop and emergency-stop
//! control.
pub mod config;
pub mod dither;
pub mod edges;
pub mod engine;
pub mod generate;
pub mod human;
pub mod mask;
pub mod matrix;
pub mod path;
pub mod raster;
pub mod scan;
pub mod spiral;
pub mod status;
pub mod stipple;
pub mod worker;
