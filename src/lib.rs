//! A fixed-capacity frequency histogram over reuse times, with logarithmic
//! ("sublog") bucketing: every power-of-two octave above a linear region is
//! split into `2^precision` equal sub-buckets.
pub mod bucket;
pub mod histogram;
pub mod index;

pub use bucket::Bucket;
pub use histogram::{Histogram, HistogramError};
pub use index::convert_value_to_index;
