//! A frame-rendering engine: static partitioning of frames among workers,
//! completion tracking, dense RGB pixel buffers and the rasterizer that fills
//! them, the shader registry, and the configuration, file names and encoder
//! command line of a render run.

pub mod config;
pub mod config_text;
pub mod encoder;
pub mod naming;
pub mod partition;
pub mod pixel;
pub mod progress;
pub mod raster;
pub mod registry;
pub mod vector;
