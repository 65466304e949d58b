//! Verified core of a two-dimensional mass–spring ("soda constructor") simulator:
//! the model's topology and its bookkeeping, the wave that drives the muscles,
//! the wall-contact rule behind the wave's auto-reverse, and the reading of the
//! identifiers and settings found in model files. The floating-point mechanics,
//! file loading and drawing live in the application around this library.

pub mod physics;
pub mod text;
pub mod model_io;
pub mod slider_box;
pub mod wavebox;
