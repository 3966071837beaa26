//! A tile-grid sandbox: a camera that pans and zooms over a square grid,
//! pawns that are selected with a click and walk to a clicked tile.
//!
//! All quantities are fixed-point integers:
//! world coordinates are in millionths of a world unit,
//! window coordinates in thousandths of a pixel,
//! the camera scale in thousandths, and elapsed time in microseconds.
pub mod arith;
pub mod camera;
pub mod motion;
pub mod pointer;
pub mod scene;
pub mod selection;
pub mod spawn;
pub mod transform;
