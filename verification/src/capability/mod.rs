//! Capabilities that activities may use.

pub mod traits;

pub use traits::{CapabilityError, CapabilityResult};
