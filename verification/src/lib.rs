//! A streaming encoder for animated PNG (APNG) byte streams.
//!
//! The encoder accepts raw pixel buffers frame by frame and appends a
//! bit-exact APNG stream (PNG signature, `IHDR`, `acTL`, `fcTL`, `IDAT`,
//! `fdAT`, `IEND` chunks) to an owned byte sink.

pub mod apng;

pub use apng::{BlendOperator, Color, Delay, DisposeOperator, Frame, Meta};
pub use apng::chunks::IHDR;
pub use apng::encoder::{Encoder, Filter, Rectangle};
pub use apng::errors::{ApngError, ApngResult};
pub use apng::validators::validate_color;
