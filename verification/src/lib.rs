//! A whiteboard scene engine: drawable objects on a bounded fixed-point
//! canvas, the mapping between screen and canvas coordinates, hit-testing,
//! selection bounds, handle-driven move/scale/rotate transforms and a bounded
//! undo history.

pub mod fixed;
pub mod models;
pub mod transform;
pub mod selection;
pub mod canvas;
pub mod smoothing;
pub mod resize;
pub mod history;
pub mod gesture;
pub mod ids;
pub mod board;
