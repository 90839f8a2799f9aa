//! Verified bookkeeping core of an offline stochastic ray tracer: colour
//! quantisation, per-pixel running means, nearest-hit selection, the bounded
//! bounce controller and the row-major image buffer.
pub mod bounce;
pub mod color;
pub mod encode;
pub mod hit;
pub mod pixel;
pub mod scene;
