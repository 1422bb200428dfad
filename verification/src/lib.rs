//! A fixed-capacity FIFO page cache: the cursor, the per-page versions and the
//! receipts by which stored values are found again.
//!
//! The cache decides where bytes go and whether a receipt is still good; the
//! caller owns the backing file and carries out the seeks, writes and reads
//! that the cache asks for.

pub mod value;
pub mod receipt;
pub mod model;
pub mod geometry;
pub mod manager;
pub mod cache;
pub mod laws;

pub use manager::WriteManger;
pub use receipt::WriteResponse;
pub use receipt::WriteStep;
pub use value::Value;
pub use cache::FifoFileCache;
pub use cache::MockRequest;
