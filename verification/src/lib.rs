//! Decoder for a pair of legacy geospatial file formats: a binary
//! vector-geometry format (shape file) and its companion fixed-width
//! tabular attribute format (dBASE file), joined positionally into
//! domain objects.
//!
//! Floating-point coordinates are carried as raw little-endian IEEE-754
//! bit patterns (`u64`); consumers reinterpret them as they see fit.

pub mod codec;
pub mod dbase;
pub mod error;
pub mod parse;
pub mod shape;
pub mod spatial;
pub mod text;
