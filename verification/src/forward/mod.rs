//! Copying between two streams.
pub mod stream;
