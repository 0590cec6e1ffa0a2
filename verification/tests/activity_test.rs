//! Executing the activities of events, tasks and gateways.

use bpmn_engine::activity::{ActivityError, ActivityResult, DefaultActivityFactory, ElementActivity};
use bpmn_engine::engine::context::{ExecutionContext, GatewayDirection, ProcessInstanceState};
use bpmn_engine::engine::evaluator::{ConditionOutcome, NumericOp};
use bpmn_engine::json_value::JsonValue;
use bpmn_engine::model::{
    ConditionExpression, ElementBase, EndEvent, EventDefinition, ExclusiveGateway, InclusiveGateway,
    IntermediateCatchEvent, IntermediateThrowEvent, IoMapping, ManualTask, MultiInstanceLoopCharacteristics,
    ParallelGateway, ProcessDefinition, ProcessElement, ScriptTask, SequenceFlow, ServiceTask, StartEvent, UserTask,
};

fn base(id: &str) -> ElementBase {
    ElementBase { id: id.to_string(), name: None, documentation: None }
}

fn service(id: &str) -> ProcessElement {
    ProcessElement::ServiceTask(ServiceTask {
        base: base(id),
        implementation: None,
        operation_ref: None,
        io_mapping: IoMapping::default(),
        loop_characteristics: None,
    })
}

fn flow(id: &str, source: &str, target: &str) -> SequenceFlow {
    SequenceFlow {
        id: id.to_string(),
        name: None,
        source_ref: source.to_string(),
        target_ref: target.to_string(),
        condition_expression: None,
    }
}

fn conditional(id: &str, source: &str, target: &str, body: &str) -> SequenceFlow {
    SequenceFlow {
        condition_expression: Some(ConditionExpression { language: None, body: body.to_string() }),
        ..flow(id, source, target)
    }
}

fn context(elements: Vec<ProcessElement>, flows: Vec<SequenceFlow>) -> ExecutionContext {
    let definition = ProcessDefinition {
        id: "process1".to_string(),
        name: None,
        process_type: "process".to_string(),
        is_executable: true,
        elements,
        flows,
        variables: Vec::new(),
    };
    ExecutionContext::new(definition, "instance1".to_string())
}

fn holds(outcome: &ConditionOutcome) -> bool {
    match outcome {
        ConditionOutcome::Decided(b) => *b,
        ConditionOutcome::NumberEquals { number, operand, negated } => {
            let equal = match (number.parse::<f64>(), operand.parse::<f64>()) {
                (Ok(a), Ok(b)) => (a - b).abs() < f64::EPSILON,
                _ => false,
            };
            equal != *negated
        },
        ConditionOutcome::NumberOrder { number, operand, op } => match (number.parse::<f64>(), operand.parse::<f64>()) {
            (Ok(a), Ok(b)) => match op {
                NumericOp::Greater => a > b,
                NumericOp::Less => a < b,
                NumericOp::GreaterOrEqual => a >= b,
                NumericOp::LessOrEqual => a <= b,
            },
            _ => false,
        },
        ConditionOutcome::TextEquals { .. } => unreachable!(),
    }
}

fn verdicts(outcomes: &[Option<ConditionOutcome>]) -> Vec<bool> {
    outcomes.iter().map(|o| o.as_ref().map(holds).unwrap_or(false)).collect()
}

/// Makes the element's activity with the default factory and executes it.
fn run(element: &ProcessElement, context: &mut ExecutionContext) -> Result<ActivityResult, ActivityError> {
    match DefaultActivityFactory::new().create_activity(element).unwrap() {
        ElementActivity::StartEvent(a) => a.execute(context),
        ElementActivity::EndEvent(a) => a.execute(context),
        ElementActivity::IntermediateCatchEvent(a) => a.execute(context),
        ElementActivity::IntermediateThrowEvent(a) => a.execute(context),
        ElementActivity::ServiceTask(a) => a.execute(context),
        ElementActivity::UserTask(a) => a.execute(context),
        ElementActivity::ScriptTask(a) => a.execute(context),
        ElementActivity::ManualTask(a) => a.execute(context),
        ElementActivity::CallActivity(a) => a.execute(context),
        ElementActivity::ParallelGateway(a) => a.execute(context),
        ElementActivity::ExclusiveGateway(a) => {
            let v = verdicts(&a.conditions(context));
            a.execute(context, &v)
        },
        ElementActivity::InclusiveGateway(a) => {
            let v = verdicts(&a.conditions(context));
            a.execute(context, &v)
        },
    }
}

fn next(result: Result<ActivityResult, ActivityError>) -> Vec<String> {
    match result {
        Ok(ActivityResult::Continue { next_elements }) => next_elements,
        other => panic!("Expected Continue result, got {:?}", other),
    }
}

#[test]
fn test_start_event_activity_via_factory() {
    let start = ProcessElement::StartEvent(StartEvent { base: base("start1"), event_definition: None });
    let mut ctx = context(vec![start.clone(), service("task1")], vec![flow("flow1", "start1", "task1")]);
    let next_elements = next(run(&start, &mut ctx));
    assert_eq!(next_elements.len(), 1);
    assert_eq!(next_elements[0], "task1");
}

#[test]
fn test_end_event_activity_via_factory() {
    let end = ProcessElement::EndEvent(EndEvent { base: base("end1"), event_definition: None });
    let mut ctx = context(vec![end.clone()], vec![]);
    assert!(matches!(run(&end, &mut ctx), Ok(ActivityResult::Completed { .. })));
    assert_eq!(ctx.state, ProcessInstanceState::Completed);
}

#[test]
fn test_intermediate_catch_event_activity_via_factory() {
    let catch = ProcessElement::IntermediateCatchEvent(IntermediateCatchEvent {
        base: base("catchEvent1"),
        event_definition: None,
    });
    let mut ctx = context(vec![catch.clone()], vec![]);
    match run(&catch, &mut ctx) {
        Ok(ActivityResult::Waiting { reason }) => {
            assert_eq!(reason, "Intermediate catch event 'catchEvent1' waiting for event")
        },
        _ => panic!("Expected Waiting result"),
    }
    assert!(ctx.variables.is_empty());
}

#[test]
fn test_intermediate_throw_event_activity_via_factory() {
    let throw = ProcessElement::IntermediateThrowEvent(IntermediateThrowEvent {
        base: base("throwEvent1"),
        event_definition: None,
    });
    let mut ctx = context(vec![throw.clone(), service("task1")], vec![flow("flow1", "throwEvent1", "task1")]);
    assert_eq!(next(run(&throw, &mut ctx)), vec!["task1".to_string()]);
}

#[test]
fn test_signal_catch_event_activity() {
    let event = ProcessElement::IntermediateCatchEvent(IntermediateCatchEvent {
        base: base("catchSignal1"),
        event_definition: Some(EventDefinition::Signal { signal_ref: Some("approvalSignal".to_string()) }),
    });
    let mut ctx = context(vec![], vec![]);
    match run(&event, &mut ctx) {
        Ok(ActivityResult::Waiting { reason }) => {
            assert!(reason.contains("approvalSignal"));
            assert!(ctx.get_variable("_signal_catchSignal1").is_some());
        },
        _ => panic!("Expected Waiting result for signal catch event"),
    }
    assert_eq!(ctx.get_variable("_signal_catchSignal1"), Some(&JsonValue::String("approvalSignal".to_string())));
}

#[test]
fn test_signal_throw_event_activity() {
    let event = ProcessElement::IntermediateThrowEvent(IntermediateThrowEvent {
        base: base("throwSignal1"),
        event_definition: Some(EventDefinition::Signal { signal_ref: Some("approvalSignal".to_string()) }),
    });
    let mut ctx = context(vec![], vec![]);
    match run(&event, &mut ctx) {
        Ok(ActivityResult::Continue { next_elements }) => {
            assert!(next_elements.is_empty());
            assert!(ctx.get_variable("_signal_throwSignal1").is_some());
        },
        _ => panic!("Expected Continue result for signal throw event"),
    }
}

#[test]
fn test_escalation_catch_event_activity() {
    let event = ProcessElement::IntermediateCatchEvent(IntermediateCatchEvent {
        base: base("catchEscalation1"),
        event_definition: Some(EventDefinition::Escalation { escalation_ref: Some("pmo_intervention".to_string()) }),
    });
    let mut ctx = context(vec![], vec![]);
    match run(&event, &mut ctx) {
        Ok(ActivityResult::Waiting { reason }) => {
            assert!(reason.contains("Escalation"));
            assert!(ctx.get_variable("_escalation_catchEscalation1").is_some());
        },
        _ => panic!("Expected Waiting result for escalation catch event"),
    }
}

#[test]
fn test_escalation_throw_event_activity() {
    let event = ProcessElement::IntermediateThrowEvent(IntermediateThrowEvent {
        base: base("throwEscalation1"),
        event_definition: Some(EventDefinition::Escalation { escalation_ref: None }),
    });
    let mut ctx = context(vec![], vec![]);
    match run(&event, &mut ctx) {
        Ok(ActivityResult::Continue { .. }) => {
            assert_eq!(ctx.get_variable("_escalation_throwEscalation1"), Some(&JsonValue::Null));
        },
        _ => panic!("Expected Continue result for escalation throw event"),
    }
}

#[test]
fn test_service_task_activity_via_factory() {
    let task = service("task1");
    let mut ctx = context(vec![task.clone()], vec![]);
    assert!(matches!(run(&task, &mut ctx), Ok(ActivityResult::Completed { output_variables: None })));
}

#[test]
fn test_user_task_activity_via_factory() {
    let task = ProcessElement::UserTask(UserTask {
        base: base("userTask1"),
        assignment: None,
        form_key: None,
        loop_characteristics: None,
    });
    let mut ctx = context(vec![task.clone()], vec![]);
    assert!(matches!(run(&task, &mut ctx), Ok(ActivityResult::Waiting { .. })));
}

#[test]
fn test_manual_task_activity_via_factory() {
    let task = ProcessElement::ManualTask(ManualTask { base: base("manualTask1") });
    let mut ctx = context(vec![task.clone()], vec![]);
    assert!(matches!(run(&task, &mut ctx), Ok(ActivityResult::Completed { .. })));
}

#[test]
fn test_script_task_activity_via_factory() {
    let task = ProcessElement::ScriptTask(ScriptTask {
        base: base("scriptTask1"),
        script_format: Some("javascript".to_string()),
        script: Some("console.log('test');".to_string()),
        loop_characteristics: None,
    });
    let mut ctx = context(vec![task.clone()], vec![]);
    assert!(matches!(run(&task, &mut ctx), Ok(ActivityResult::Completed { .. })));
}

#[test]
fn multi_instance_task_records_its_counters() {
    let task = ProcessElement::ServiceTask(ServiceTask {
        base: base("t"),
        implementation: None,
        operation_ref: None,
        io_mapping: IoMapping::default(),
        loop_characteristics: Some(MultiInstanceLoopCharacteristics {
            is_parallel: true,
            loop_cardinality: Some(3),
            completion_condition: None,
            behavior: None,
        }),
    });
    let mut ctx = context(vec![task.clone()], vec![]);
    assert!(matches!(run(&task, &mut ctx), Ok(ActivityResult::Completed { .. })));
    assert_eq!(ctx.get_variable("_mi_count_t"), Some(&JsonValue::Number("3".to_string())));
    assert_eq!(ctx.get_variable("_mi_completed_t"), Some(&JsonValue::Number("0".to_string())));
    assert_eq!(ctx.get_variable("_mi_active_t"), Some(&JsonValue::Number("0".to_string())));
}

fn exclusive(id: &str, default_flow: Option<&str>) -> ProcessElement {
    ProcessElement::ExclusiveGateway(ExclusiveGateway { base: base(id), default_flow: default_flow.map(|d| d.to_string()) })
}

fn inclusive(id: &str, default_flow: Option<&str>) -> ProcessElement {
    ProcessElement::InclusiveGateway(InclusiveGateway { base: base(id), default_flow: default_flow.map(|d| d.to_string()) })
}

fn parallel(id: &str) -> ProcessElement {
    ProcessElement::ParallelGateway(ParallelGateway { base: base(id), default_flow: None, gateway_direction: GatewayDirection::Unknown })
}

#[test]
fn test_exclusive_gateway_activity_via_factory() {
    let g = exclusive("gateway1", None);
    let mut ctx = context(vec![g.clone(), service("task1")], vec![flow("flow1", "gateway1", "task1")]);
    assert!(!next(run(&g, &mut ctx)).is_empty());
}

#[test]
fn test_parallel_gateway_activity_via_factory() {
    let g = parallel("gateway1");
    let mut ctx = context(
        vec![g.clone(), service("task1"), service("task2")],
        vec![flow("flow1", "gateway1", "task1"), flow("flow2", "gateway1", "task2")],
    );
    assert_eq!(next(run(&g, &mut ctx)).len(), 2);
}

#[test]
fn test_inclusive_gateway_activity_via_factory() {
    let g = inclusive("gateway1", None);
    let mut ctx = context(vec![g.clone(), service("task1")], vec![flow("flow1", "gateway1", "task1")]);
    assert!(!next(run(&g, &mut ctx)).is_empty());
}

#[test]
fn exclusive_gateway_takes_first_holding_condition_else_default() {
    let g = exclusive("g", Some("f3"));
    let flows = vec![
        conditional("f1", "g", "a", "amount > 100"),
        conditional("f2", "g", "b", "status = approved"),
        flow("f3", "g", "c"),
    ];
    let mut ctx = context(vec![g.clone()], flows);
    ctx.set_variable("amount".to_string(), JsonValue::Number("50".to_string()));
    ctx.set_variable("status".to_string(), JsonValue::String("APPROVED".to_string()));
    assert_eq!(next(run(&g, &mut ctx)), vec!["b".to_string()]);
    ctx.set_variable("status".to_string(), JsonValue::String("rejected".to_string()));
    assert_eq!(next(run(&g, &mut ctx)), vec!["c".to_string()]);
    ctx.set_variable("amount".to_string(), JsonValue::Number("150".to_string()));
    assert_eq!(next(run(&g, &mut ctx)), vec!["a".to_string()]);
}

#[test]
fn exclusive_gateway_without_flows_fails() {
    let g = exclusive("g", None);
    let mut ctx = context(vec![g.clone()], vec![]);
    match run(&g, &mut ctx) {
        Err(ActivityError::ExecutionFailed(m)) => assert_eq!(m, "No outgoing flow selected from exclusive gateway"),
        other => panic!("Expected an execution failure, got {:?}", other),
    }
}

#[test]
fn inclusive_gateway_takes_every_holding_flow_or_default() {
    let g = inclusive("g", Some("fd"));
    let flows = vec![
        conditional("f1", "g", "a", "x > 1"),
        flow("f2", "g", "b"),
        conditional("f3", "g", "c", "x > 5"),
        flow("fd", "g", "d"),
    ];
    let mut ctx = context(vec![g.clone()], flows);
    ctx.set_variable("x".to_string(), JsonValue::Number("3".to_string()));
    assert_eq!(next(run(&g, &mut ctx)), vec!["a".to_string(), "b".to_string()]);

    let g2 = inclusive("h", Some("hd"));
    let mut ctx2 = context(vec![g2.clone()], vec![conditional("h1", "h", "a", "x > 5"), flow("hd", "h", "d")]);
    ctx2.set_variable("x".to_string(), JsonValue::Number("3".to_string()));
    assert_eq!(next(run(&g2, &mut ctx2)), vec!["d".to_string()]);

    let g3 = inclusive("k", None);
    let mut ctx3 = context(vec![g3.clone()], vec![conditional("k1", "k", "a", "x > 5")]);
    ctx3.set_variable("x".to_string(), JsonValue::Number("3".to_string()));
    match run(&g3, &mut ctx3) {
        Err(ActivityError::ExecutionFailed(m)) => assert_eq!(m, "No outgoing flow selected from inclusive gateway"),
        other => panic!("Expected an execution failure, got {:?}", other),
    }
}

#[test]
fn parallel_join_waits_for_every_branch() {
    let g = parallel("join");
    let mut ctx = context(
        vec![service("a"), service("b"), g.clone(), service("after")],
        vec![flow("fa", "a", "join"), flow("fb", "b", "join"), flow("fo", "join", "after")],
    );
    ctx.add_incoming_token("join".to_string(), "a".to_string());
    match run(&g, &mut ctx) {
        Ok(ActivityResult::Waiting { reason }) => {
            assert_eq!(reason, "Waiting for all incoming branches at parallel gateway join")
        },
        other => panic!("Expected Waiting, got {:?}", other),
    }
    assert_eq!(ctx.get_incoming_tokens("join").len(), 1);
    ctx.add_incoming_token("join".to_string(), "b".to_string());
    assert_eq!(next(run(&g, &mut ctx)), vec!["after".to_string()]);
    assert!(ctx.get_incoming_tokens("join").is_empty());
}

#[test]
fn parallel_gateway_without_outgoing_flows_completes() {
    let g = parallel("g");
    let mut ctx = context(vec![g.clone()], vec![flow("f", "x", "g")]);
    assert!(matches!(run(&g, &mut ctx), Ok(ActivityResult::Completed { output_variables: None })));
}
