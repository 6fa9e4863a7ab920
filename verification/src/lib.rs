//! Escape-time rendering of the Mandelbrot set into a flat RGB buffer.
//!
//! - `config`: what a render is configured with, and when it can be used.
//! - `bands`: how the columns are dealt out among the workers.
//! - `escape`: when the following of an orbit goes on and when it ends.
//! - `palette`: the colour that belongs to a pass count.
//! - `image`: the buffer, the colouring of one pixel and of all of them.
//! - `bitmap`: the headers of the file that the buffer is written to.
//!
//! The orbits themselves are followed in floating point by the caller; what
//! this library takes from them is the number of passes each one survived.

pub mod bands;
pub mod bitmap;
pub mod config;
pub mod escape;
pub mod image;
pub mod palette;
