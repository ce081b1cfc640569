//! Core of a small 2D rendering backend over a stateful graphics driver.
//!
//! The crate models the driver as a command stream: every operation decides
//! which driver commands must be issued and in what order, updates a cached
//! picture of the driver's bound state, and hands the commands back to the
//! embedding layer, which executes them against the real driver.

pub mod cache;
pub mod compose;
pub mod error;
pub mod frame;
pub mod geometry;
pub mod limits;

pub use error::RenderError;
