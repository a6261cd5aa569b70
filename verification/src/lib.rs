//! Verified core of a raster-image to WebP batch converter.
//!
//! The library holds the logic of the pipeline: classifying directory
//! entries by extension, the per-file validation guards and their order,
//! the quality clamp and the choice between lossy and lossless encoding,
//! the text of every log line, and the aggregation of per-item outcomes
//! into a batch summary.  Decoding and lossless encoding are calls into
//! image codecs, made behind trusted wrappers on plain byte values.
//!
//! File and directory I/O, the worker pool that fans conversions out, and
//! the lossy encode call (whose quality argument is a float) live in the
//! unverified application layer, which feeds this library plain values.

pub mod batch;
pub mod codec;
pub mod errors;
pub mod laws;
pub mod numfmt;
pub mod pathnames;
pub mod single;
