//! Sanitization and corpus-evolution core of an LLM-guided fuzz-driver
//! synthesis pipeline: stage decisions, batch supervision, cleanup policy and
//! the global feature store, each stated and proved with Verus.

pub mod error;
pub mod executor;
pub mod batch;
pub mod text;
pub mod workdir;
pub mod feature;
pub mod cost;
pub mod config;
pub mod openai;
pub mod merge;
pub mod usage;
pub mod toolchain;
