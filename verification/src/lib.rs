//! BPMN 2.0 process model, format handling and execution rules, with
//! machine-checked contracts.

pub mod text;
pub mod words;
pub mod lists;
pub mod json_value;
pub mod model;
pub mod engine;
pub mod activity;
pub mod elements;
pub mod capability;
pub mod repository;

pub use activity::{ActivityError, ActivityResult, DefaultActivityFactory};
pub use engine::context::ExecutionContext;
pub use engine::executor::{EngineBuilder, EngineError};
pub use model::ProcessDefinition;
