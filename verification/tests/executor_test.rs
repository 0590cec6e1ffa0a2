//! Driving a process instance with the engine's decisions: rounds of current
//! elements, the results of their activities, and where execution goes.

use bpmn_engine::activity::{ActivityError, ActivityResult, DefaultActivityFactory, ElementActivity};
use bpmn_engine::engine::context::{ExecutionContext, ExecutionStepResult, GatewayDirection, ProcessInstanceState};
use bpmn_engine::engine::executor::{
    begin_execution, element_for_step, fail_execution, record_activity_result, round_continues, start_event_ids,
    take_round, EngineError, StepControl,
};
use bpmn_engine::model::{
    ElementBase, EndEvent, IoMapping, ParallelGateway, ProcessDefinition, ProcessElement, SequenceFlow, ServiceTask,
    StartEvent, UserTask,
};

fn base(id: &str) -> ElementBase {
    ElementBase { id: id.to_string(), name: None, documentation: None }
}

fn start(id: &str) -> ProcessElement {
    ProcessElement::StartEvent(StartEvent { base: base(id), event_definition: None })
}

fn end(id: &str) -> ProcessElement {
    ProcessElement::EndEvent(EndEvent { base: base(id), event_definition: None })
}

fn service(id: &str) -> ProcessElement {
    ProcessElement::ServiceTask(ServiceTask {
        base: base(id),
        implementation: None,
        operation_ref: None,
        io_mapping: IoMapping::default(),
        loop_characteristics: None,
    })
}

fn user(id: &str) -> ProcessElement {
    ProcessElement::UserTask(UserTask { base: base(id), assignment: None, form_key: None, loop_characteristics: None })
}

fn parallel(id: &str) -> ProcessElement {
    ProcessElement::ParallelGateway(ParallelGateway {
        base: base(id),
        default_flow: None,
        gateway_direction: GatewayDirection::Unknown,
    })
}

fn flow(id: &str, source: &str, target: &str) -> SequenceFlow {
    SequenceFlow {
        id: id.to_string(),
        name: None,
        source_ref: source.to_string(),
        target_ref: target.to_string(),
        condition_expression: None,
    }
}

fn context(elements: Vec<ProcessElement>, flows: Vec<SequenceFlow>) -> ExecutionContext {
    let definition = ProcessDefinition {
        id: "process1".to_string(),
        name: None,
        process_type: "process".to_string(),
        is_executable: true,
        elements,
        flows,
        variables: Vec::new(),
    };
    ExecutionContext::new(definition, "instance1".to_string())
}

fn execute(element: &ProcessElement, context: &mut ExecutionContext) -> Result<ActivityResult, ActivityError> {
    match DefaultActivityFactory::new().create_activity(element)? {
        ElementActivity::StartEvent(a) => a.execute(context),
        ElementActivity::EndEvent(a) => a.execute(context),
        ElementActivity::IntermediateCatchEvent(a) => a.execute(context),
        ElementActivity::IntermediateThrowEvent(a) => a.execute(context),
        ElementActivity::ServiceTask(a) => a.execute(context),
        ElementActivity::UserTask(a) => a.execute(context),
        ElementActivity::ScriptTask(a) => a.execute(context),
        ElementActivity::ManualTask(a) => a.execute(context),
        ElementActivity::CallActivity(a) => a.execute(context),
        ElementActivity::ParallelGateway(a) => a.execute(context),
        ElementActivity::ExclusiveGateway(a) => {
            let v = vec![false; a.conditions(context).len()];
            a.execute(context, &v)
        },
        ElementActivity::InclusiveGateway(a) => {
            let v = vec![false; a.conditions(context).len()];
            a.execute(context, &v)
        },
    }
}

/// Runs the process: rounds of current elements until it completes, waits
/// or fails.
fn drive(context: &mut ExecutionContext) -> Result<(), EngineError> {
    begin_execution(context)?;
    while let Some(round) = take_round(context) {
        for element_id in round {
            let element = element_for_step(context, &element_id)?;
            let result = match execute(&element, context) {
                Ok(r) => r,
                Err(e) => return Err(fail_execution(context, e)),
            };
            match record_activity_result(context, element_id, &element, result, std::time::SystemTime::now()) {
                StepControl::Proceed => {},
                StepControl::EndRound => break,
                StepControl::Finish => return Ok(()),
            }
        }
        if !round_continues(context) {
            break;
        }
    }
    Ok(())
}

fn history(context: &ExecutionContext) -> Vec<String> {
    context.execution_history.iter().map(|s| s.element_id.clone()).collect()
}

#[test]
fn simple_process_runs_to_completion() {
    let mut ctx = context(
        vec![start("s"), service("t"), end("e")],
        vec![flow("f1", "s", "t"), flow("f2", "t", "e")],
    );
    drive(&mut ctx).unwrap();
    assert_eq!(ctx.state, ProcessInstanceState::Completed);
    assert_eq!(history(&ctx), vec!["s".to_string(), "t".to_string(), "e".to_string()]);
}

#[test]
fn process_without_start_event_is_refused() {
    let mut ctx = context(vec![service("t")], vec![]);
    assert!(start_event_ids(&ctx.process_definition).is_empty());
    match drive(&mut ctx) {
        Err(EngineError::NoStartEvent) => {},
        other => panic!("Expected NoStartEvent, got {:?}", other),
    }
    assert_eq!(ctx.state, ProcessInstanceState::Active);
    assert_eq!(EngineError::NoStartEvent.message(), "No start event found in process");
}

#[test]
fn flow_to_a_missing_element_fails_the_process() {
    let mut ctx = context(vec![start("s")], vec![flow("f1", "s", "ghost")]);
    match drive(&mut ctx) {
        Err(EngineError::ElementNotFound(id)) => assert_eq!(id, "ghost"),
        other => panic!("Expected ElementNotFound, got {:?}", other),
    }
    assert_eq!(ctx.state, ProcessInstanceState::Failed);
}

#[test]
fn user_task_leaves_the_process_waiting() {
    let mut ctx = context(
        vec![start("s"), user("approve"), end("e")],
        vec![flow("f1", "s", "approve"), flow("f2", "approve", "e")],
    );
    drive(&mut ctx).unwrap();
    assert_eq!(ctx.state, ProcessInstanceState::Active);
    let last = ctx.execution_history.last().unwrap();
    assert_eq!(last.element_id, "approve");
    assert!(matches!(last.result, ExecutionStepResult::Waiting(_)));
}

#[test]
fn parallel_branches_meet_at_the_join() {
    let mut ctx = context(
        vec![start("s"), parallel("split"), service("a"), service("b"), parallel("join"), service("after"), end("e")],
        vec![
            flow("f0", "s", "split"),
            flow("fa", "split", "a"),
            flow("fb", "split", "b"),
            flow("ja", "a", "join"),
            flow("jb", "b", "join"),
            flow("fo", "join", "after"),
            flow("fe", "after", "e"),
        ],
    );
    drive(&mut ctx).unwrap();
    assert_eq!(ctx.state, ProcessInstanceState::Completed);
    let steps = history(&ctx);
    assert!(steps.contains(&"after".to_string()));
    assert_eq!(steps.iter().filter(|s| s.as_str() == "after").count(), 1);
    assert!(ctx.get_incoming_tokens("join").is_empty());
}

#[test]
fn activity_error_fails_the_process() {
    let mut ctx = context(vec![start("s"), parallel("x")], vec![flow("f", "s", "x")]);
    let err = fail_execution(&mut ctx, ActivityError::NotFound("x".to_string()));
    assert_eq!(ctx.state, ProcessInstanceState::Failed);
    assert!(matches!(err, EngineError::ActivityExecutionError(ActivityError::NotFound(_))));
    assert!(err.message().starts_with("Activity execution error: "));
}
