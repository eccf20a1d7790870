//! Rendering and animation engine for a small round display: colour
//! encoding, region rasterisation, sprite frames, character animation,
//! safe-area clamping, the frame-flush protocol and the touch hand-off.

pub mod color;
pub mod geometry;
pub mod raster;
pub mod matrix_frames;
pub mod sprites;
pub mod spaceship;
pub mod character;
pub mod matrix_character;
pub mod cycle;
pub mod safe_area;
pub mod flush;
pub mod touch;
pub mod gesture;
