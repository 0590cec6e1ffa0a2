//! Execution: context, condition evaluation, execution steps and timers.

pub mod context;
pub mod evaluator;
pub mod timer;
pub mod executor;

pub use context::{
    detect_gateway_direction, ExecutionContext, ExecutionStep, ExecutionStepResult, GatewayDirection,
    ProcessInstanceState,
};
