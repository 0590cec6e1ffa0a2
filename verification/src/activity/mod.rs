//! Activities: executable units of a process, their results, and the
//! factory that makes them from process elements.

pub mod factory;
pub mod listener;
pub mod plugin;
pub mod traits;

pub use factory::{DefaultActivityFactory, ElementActivity};
pub use listener::ListenerError;
pub use plugin::PluginError;
pub use traits::{ActivityError, ActivityResult};
