//! Storage of process instances.

pub mod traits;

pub use traits::RepositoryError;
