//! The parts of semantic embedding that are not numeric: chunking of long
//! inputs, pooling choice, model tables, and the configuration of a local
//! model. Inference, pooling arithmetic and similarity work on floating
//! point and live outside this crate.

pub mod chunk;
pub mod compat;
pub mod inference;
pub mod local;
pub mod pooling;
pub mod providers;

pub use chunk::{chunk_for_model, ChunkMode, ChunkingStrategy};
pub use local::LocalProviderBuilder;
pub use pooling::Pooling;
