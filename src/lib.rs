//! Batch kernels over paired input and output buffers, and the planning of
//! contiguous chunks for data-parallel execution of those kernels.
pub mod batch;
pub mod chunks;
pub mod error;

pub use batch::{map_into, zip_with};
pub use chunks::{chunk_count, chunk_len, parallel_chunk_len, MAX_CHUNKS};
pub use error::{check_dimensions, DimensionMismatch};
