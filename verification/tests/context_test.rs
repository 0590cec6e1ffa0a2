//! Execution context: variables, history, current elements, join tokens,
//! gateway directions.

use bpmn_engine::engine::context::{
    detect_gateway_direction, ExecutionContext, ExecutionStep, ExecutionStepResult, GatewayDirection,
    ProcessInstanceState,
};
use bpmn_engine::json_value::JsonValue;
use bpmn_engine::model::{
    ElementBase, EndEvent, IoMapping, ParallelGateway, ProcessDefinition, ProcessElement, SequenceFlow, ServiceTask,
    StartEvent,
};

fn base(id: &str) -> ElementBase {
    ElementBase { id: id.to_string(), name: None, documentation: None }
}

fn start(id: &str) -> ProcessElement {
    ProcessElement::StartEvent(StartEvent { base: base(id), event_definition: None })
}

fn end(id: &str) -> ProcessElement {
    ProcessElement::EndEvent(EndEvent { base: base(id), event_definition: None })
}

fn service(id: &str) -> ProcessElement {
    ProcessElement::ServiceTask(ServiceTask {
        base: base(id),
        implementation: None,
        operation_ref: None,
        io_mapping: IoMapping::default(),
        loop_characteristics: None,
    })
}

fn parallel(id: &str) -> ProcessElement {
    ProcessElement::ParallelGateway(ParallelGateway {
        base: base(id),
        default_flow: None,
        gateway_direction: GatewayDirection::Unknown,
    })
}

fn flow(id: &str, source: &str, target: &str) -> SequenceFlow {
    SequenceFlow {
        id: id.to_string(),
        name: None,
        source_ref: source.to_string(),
        target_ref: target.to_string(),
        condition_expression: None,
    }
}

fn definition(elements: Vec<ProcessElement>, flows: Vec<SequenceFlow>) -> ProcessDefinition {
    ProcessDefinition {
        id: "process1".to_string(),
        name: None,
        process_type: "process".to_string(),
        is_executable: true,
        elements,
        flows,
        variables: Vec::new(),
    }
}

fn empty_context() -> ExecutionContext {
    ExecutionContext::new(definition(Vec::new(), Vec::new()), "instance1".to_string())
}

#[test]
fn test_execution_context_new() {
    let context = empty_context();
    assert_eq!(context.instance_id, "instance1");
    assert_eq!(context.state, ProcessInstanceState::Active);
    assert!(context.current_elements.is_empty());
    assert!(context.variables.is_empty());
}

#[test]
fn test_execution_context_set_get_variable() {
    let mut context = empty_context();
    context.set_variable("test_var".to_string(), JsonValue::String("test_value".to_string()));

    assert_eq!(context.get_variable("test_var"), Some(&JsonValue::String("test_value".to_string())));
    assert_eq!(context.get_variable("nonexistent"), None);
}

#[test]
fn test_execution_context_add_execution_step() {
    let mut context = empty_context();
    context.add_execution_step(ExecutionStep {
        element_id: "task1".to_string(),
        timestamp: std::time::SystemTime::now(),
        result: ExecutionStepResult::Completed,
    });

    assert_eq!(context.execution_history.len(), 1);
    assert_eq!(context.execution_history[0].element_id, "task1");
}

#[test]
fn test_execution_context_set_current_elements() {
    let mut context = empty_context();
    context.set_current_elements(vec!["task1".to_string(), "task2".to_string()]);

    assert_eq!(context.current_elements.len(), 2);
    assert_eq!(context.current_elements[0], "task1");

    context.clear_current_elements();
    assert!(context.current_elements.is_empty());
}

#[test]
fn test_token_tracking_add_and_check() {
    let mut context = empty_context();
    context.add_incoming_token("gateway1".to_string(), "branch1".to_string());
    context.add_incoming_token("gateway1".to_string(), "branch2".to_string());

    let tokens = context.get_incoming_tokens("gateway1");
    assert_eq!(tokens.len(), 2);
    assert!(tokens.contains(&"branch1".to_string()));
    assert!(tokens.contains(&"branch2".to_string()));
}

#[test]
fn test_all_tokens_arrived_true() {
    let mut context = empty_context();
    context.add_incoming_token("gateway1".to_string(), "branch1".to_string());
    context.add_incoming_token("gateway1".to_string(), "branch2".to_string());

    assert!(context.all_tokens_arrived("gateway1", 2));
}

#[test]
fn test_all_tokens_arrived_false() {
    let mut context = empty_context();
    context.add_incoming_token("gateway1".to_string(), "branch1".to_string());

    assert!(!context.all_tokens_arrived("gateway1", 2));
}

#[test]
fn test_clear_incoming_tokens() {
    let mut context = empty_context();
    context.add_incoming_token("gateway1".to_string(), "branch1".to_string());
    assert!(!context.get_incoming_tokens("gateway1").is_empty());

    context.clear_incoming_tokens("gateway1");
    assert!(context.get_incoming_tokens("gateway1").is_empty());
}

#[test]
fn test_all_tokens_arrived_no_tokens() {
    let context = empty_context();
    assert!(!context.all_tokens_arrived("gateway1", 1));
}

#[test]
fn test_gateway_direction_default() {
    let direction = GatewayDirection::default();
    assert_eq!(direction, GatewayDirection::Unknown);
}

#[test]
fn test_gateway_direction_diverging() {
    let definition = definition(
        vec![start("start"), parallel("gateway1"), service("task1"), service("task2")],
        vec![
            flow("flow_start", "start", "gateway1"),
            flow("flow1", "gateway1", "task1"),
            flow("flow2", "gateway1", "task2"),
        ],
    );
    assert_eq!(detect_gateway_direction("gateway1", &definition), GatewayDirection::Diverging);
}

#[test]
fn test_gateway_direction_converging() {
    let definition = definition(
        vec![service("task1"), service("task2"), parallel("gateway1"), end("end")],
        vec![
            flow("flow1", "task1", "gateway1"),
            flow("flow2", "task2", "gateway1"),
            flow("flow_end", "gateway1", "end"),
        ],
    );
    assert_eq!(detect_gateway_direction("gateway1", &definition), GatewayDirection::Converging);
}

#[test]
fn test_gateway_direction_mixed() {
    let definition = definition(
        vec![service("task1"), service("task2"), parallel("gateway1"), service("task3"), service("task4")],
        vec![
            flow("flow1", "task1", "gateway1"),
            flow("flow2", "task2", "gateway1"),
            flow("flow3", "gateway1", "task3"),
            flow("flow4", "gateway1", "task4"),
        ],
    );
    assert_eq!(detect_gateway_direction("gateway1", &definition), GatewayDirection::Mixed);
}

#[test]
fn test_gateway_direction_unknown() {
    let definition = definition(
        vec![parallel("gateway1"), service("task1")],
        vec![flow("flow1", "gateway1", "task1")],
    );
    assert_eq!(detect_gateway_direction("gateway1", &definition), GatewayDirection::Unknown);
}

#[test]
fn variable_write_replaces_earlier_value() {
    let mut context = empty_context();
    context.set_variable("x".to_string(), JsonValue::Number("1".to_string()));
    context.set_variable("x".to_string(), JsonValue::Number("2".to_string()));
    assert_eq!(context.get_variable("x"), Some(&JsonValue::Number("2".to_string())));
    assert_eq!(context.variables.len(), 1);
}

#[test]
fn same_token_counts_once() {
    let mut context = empty_context();
    context.add_incoming_token("gateway1".to_string(), "branch1".to_string());
    context.add_incoming_token("gateway1".to_string(), "branch1".to_string());
    assert_eq!(context.get_incoming_tokens("gateway1").len(), 1);
    assert!(!context.all_tokens_arrived("gateway1", 2));
    assert!(context.all_tokens_arrived("gateway1", 1));
}

#[test]
fn clearing_tokens_leaves_other_gateways() {
    let mut context = empty_context();
    context.add_incoming_token("gateway1".to_string(), "a".to_string());
    context.add_incoming_token("gateway2".to_string(), "b".to_string());
    context.clear_incoming_tokens("gateway1");
    assert!(context.get_incoming_tokens("gateway1").is_empty());
    assert_eq!(context.get_incoming_tokens("gateway2"), vec!["b".to_string()]);
}

#[test]
fn variables_as_json_object() {
    let mut context = empty_context();
    context.set_variable("a".to_string(), JsonValue::Bool(true));
    assert_eq!(
        context.variables_json(),
        JsonValue::Object(vec![("a".to_string(), JsonValue::Bool(true))])
    );
}

#[test]
fn variable_names_and_token_gateways_stay_distinct() {
    let mut context = empty_context();
    context.set_variable("a".to_string(), JsonValue::Bool(true));
    context.set_variable("b".to_string(), JsonValue::Null);
    context.set_variable("a".to_string(), JsonValue::Bool(false));
    assert_eq!(context.variables.len(), 2);
    assert_eq!(context.variables[0].0, "a");
    assert!(matches!(context.variables[0].1, JsonValue::Bool(false)));
    context.add_incoming_token("join".to_string(), "x".to_string());
    context.add_incoming_token("join".to_string(), "y".to_string());
    context.add_incoming_token("other".to_string(), "x".to_string());
    context.add_incoming_token("join".to_string(), "x".to_string());
    assert_eq!(context.incoming_tokens.len(), 2);
    assert_eq!(context.incoming_tokens[0].1, vec!["x".to_string(), "y".to_string()]);
    context.clear_incoming_tokens("join");
    assert_eq!(context.incoming_tokens.len(), 1);
    assert_eq!(context.incoming_tokens[0].0, "other");
}
