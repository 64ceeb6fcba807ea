//! Storage adapters.

pub mod local_memory;
