//! Processes that combine several features, parsed from BPMN XML and run
//! with the engine's decisions.

use bpmn_engine::activity::{ActivityError, ActivityResult, DefaultActivityFactory, ElementActivity};
use bpmn_engine::engine::context::{ExecutionContext, ProcessInstanceState};
use bpmn_engine::engine::evaluator::{ConditionOutcome, NumericOp};
use bpmn_engine::engine::executor::{
    begin_execution, element_for_step, fail_execution, record_activity_result, round_continues, take_round,
    EngineError, StepControl,
};
use bpmn_engine::model::{ProcessDefinition, ProcessElement};

fn holds(outcome: &ConditionOutcome) -> bool {
    match outcome {
        ConditionOutcome::Decided(b) => *b,
        ConditionOutcome::NumberEquals { number, operand, negated } => {
            let equal = match (number.parse::<f64>(), operand.parse::<f64>()) {
                (Ok(a), Ok(b)) => (a - b).abs() < f64::EPSILON,
                _ => false,
            };
            equal != *negated
        },
        ConditionOutcome::NumberOrder { number, operand, op } => match (number.parse::<f64>(), operand.parse::<f64>()) {
            (Ok(a), Ok(b)) => match op {
                NumericOp::Greater => a > b,
                NumericOp::Less => a < b,
                NumericOp::GreaterOrEqual => a >= b,
                NumericOp::LessOrEqual => a <= b,
            },
            _ => false,
        },
        ConditionOutcome::TextEquals { .. } => unreachable!(),
    }
}

fn execute(element: &ProcessElement, context: &mut ExecutionContext) -> Result<ActivityResult, ActivityError> {
    match DefaultActivityFactory::new().create_activity(element)? {
        ElementActivity::StartEvent(a) => a.execute(context),
        ElementActivity::EndEvent(a) => a.execute(context),
        ElementActivity::IntermediateCatchEvent(a) => a.execute(context),
        ElementActivity::IntermediateThrowEvent(a) => a.execute(context),
        ElementActivity::ServiceTask(a) => a.execute(context),
        ElementActivity::UserTask(a) => a.execute(context),
        ElementActivity::ScriptTask(a) => a.execute(context),
        ElementActivity::ManualTask(a) => a.execute(context),
        ElementActivity::CallActivity(a) => a.execute(context),
        ElementActivity::ParallelGateway(a) => a.execute(context),
        ElementActivity::ExclusiveGateway(a) => {
            let v: Vec<bool> = a.conditions(context).iter().map(|o| o.as_ref().map(holds).unwrap_or(false)).collect();
            a.execute(context, &v)
        },
        ElementActivity::InclusiveGateway(a) => {
            let v: Vec<bool> = a.conditions(context).iter().map(|o| o.as_ref().map(holds).unwrap_or(false)).collect();
            a.execute(context, &v)
        },
    }
}

/// Runs the process until it completes, waits or fails.
fn drive(context: &mut ExecutionContext) -> Result<(), EngineError> {
    begin_execution(context)?;
    while let Some(round) = take_round(context) {
        for element_id in round {
            let element = element_for_step(context, &element_id)?;
            let result = match execute(&element, context) {
                Ok(r) => r,
                Err(e) => return Err(fail_execution(context, e)),
            };
            match record_activity_result(context, element_id, &element, result, std::time::SystemTime::now()) {
                StepControl::Proceed => {},
                StepControl::EndRound => break,
                StepControl::Finish => return Ok(()),
            }
        }
        if !round_continues(context) {
            break;
        }
    }
    Ok(())
}

#[test]
fn test_timer_event_execution() {
    let xml = r#"<?xml version="1.0"?>
    <definitions xmlns="http://www.omg.org/spec/BPMN/20100524/MODEL">
      <process id="test_timer" isExecutable="true">
        <startEvent id="start"/>
        <intermediateCatchEvent id="timer1">
          <timerEventDefinition>
            <timeDuration>PT1H</timeDuration>
          </timerEventDefinition>
        </intermediateCatchEvent>
        <endEvent id="end"/>
        <sequenceFlow id="f1" sourceRef="start" targetRef="timer1"/>
        <sequenceFlow id="f2" sourceRef="timer1" targetRef="end"/>
      </process>
    </definitions>"#;

    let definition = ProcessDefinition::from_xml(xml).unwrap();
    let mut context = ExecutionContext::new(definition, "instance".to_string());
    drive(&mut context).unwrap();

    // Timer event should leave process in Active state
    assert!(matches!(context.state, ProcessInstanceState::Active));
}

#[test]
fn test_signal_event_execution() {
    let xml = r#"<?xml version="1.0"?>
    <definitions xmlns="http://www.omg.org/spec/BPMN/20100524/MODEL">
      <process id="test_signal" isExecutable="true">
        <startEvent id="start"/>
        <intermediateThrowEvent id="signal1">
          <signalEventDefinition signalRef="approvalSignal"/>
        </intermediateThrowEvent>
        <endEvent id="end"/>
        <sequenceFlow id="f1" sourceRef="start" targetRef="signal1"/>
        <sequenceFlow id="f2" sourceRef="signal1" targetRef="end"/>
      </process>
    </definitions>"#;

    let definition = ProcessDefinition::from_xml(xml).unwrap();
    let mut context = ExecutionContext::new(definition, "instance".to_string());
    drive(&mut context).unwrap();

    // Signal throw event should complete
    assert!(matches!(context.state, ProcessInstanceState::Completed));
}

#[test]
fn test_data_object_parsing() {
    let xml = r#"<?xml version="1.0"?>
    <definitions xmlns="http://www.omg.org/spec/BPMN/20100524/MODEL">
      <process id="test_data" isExecutable="true">
        <dataObject id="financialCase" name="Financial Case"/>
        <startEvent id="start"/>
        <endEvent id="end"/>
        <sequenceFlow id="f1" sourceRef="start" targetRef="end"/>
      </process>
    </definitions>"#;

    let definition = ProcessDefinition::from_xml(xml).unwrap();
    let element = definition.get_element("financialCase");
    assert!(element.is_some());
}

#[test]
fn test_extension_elements_parsing() {
    let xml = r#"<?xml version="1.0"?>
    <definitions xmlns="http://www.omg.org/spec/BPMN/20100524/MODEL">
      <process id="test_ext" isExecutable="true">
        <startEvent id="start"/>
        <userTask id="task1">
          <extensionElements>
            <custom:formKey xmlns:custom="custom">approval-form</custom:formKey>
          </extensionElements>
        </userTask>
        <endEvent id="end"/>
        <sequenceFlow id="f1" sourceRef="start" targetRef="task1"/>
        <sequenceFlow id="f2" sourceRef="task1" targetRef="end"/>
      </process>
    </definitions>"#;

    let definition = ProcessDefinition::from_xml(xml).unwrap();
    let element = definition.get_element("task1");
    assert!(element.is_some());
}

#[test]
fn test_call_activity_parsing() {
    let xml = r#"<?xml version="1.0"?>
    <definitions xmlns="http://www.omg.org/spec/BPMN/20100524/MODEL">
      <process id="test_call" isExecutable="true">
        <startEvent id="start"/>
        <callActivity id="call1" calledElement="subprocess1"/>
        <endEvent id="end"/>
        <sequenceFlow id="f1" sourceRef="start" targetRef="call1"/>
        <sequenceFlow id="f2" sourceRef="call1" targetRef="end"/>
      </process>
    </definitions>"#;

    let definition = ProcessDefinition::from_xml(xml).unwrap();
    let element = definition.get_element("call1");
    assert!(element.is_some());
}

#[test]
fn test_multiple_features_together() {
    // Test that multiple features work together in a single process
    let xml = r#"<?xml version="1.0"?>
    <definitions xmlns="http://www.omg.org/spec/BPMN/20100524/MODEL">
      <process id="multi_feature_test" isExecutable="true">
        <dataObject id="requestData" name="Request Data"/>
        <startEvent id="start"/>
        <userTask id="approve" name="Approve Request">
          <extensionElements>
            <custom:priority xmlns:custom="custom">high</custom:priority>
          </extensionElements>
        </userTask>
        <exclusiveGateway id="gateway1" gatewayDirection="Diverging"/>
        <intermediateThrowEvent id="notify">
          <signalEventDefinition signalRef="notificationSignal"/>
        </intermediateThrowEvent>
        <endEvent id="end"/>
        <sequenceFlow id="f1" sourceRef="start" targetRef="approve"/>
        <sequenceFlow id="f2" sourceRef="approve" targetRef="gateway1"/>
        <sequenceFlow id="f3" sourceRef="gateway1" targetRef="notify">
          <conditionExpression>approved == true</conditionExpression>
        </sequenceFlow>
        <sequenceFlow id="f4" sourceRef="gateway1" targetRef="end">
          <conditionExpression>approved == false</conditionExpression>
        </sequenceFlow>
        <sequenceFlow id="f5" sourceRef="notify" targetRef="end"/>
      </process>
    </definitions>"#;

    let definition = ProcessDefinition::from_xml(xml).unwrap();

    // Verify all elements are parsed correctly
    assert!(definition.get_element("requestData").is_some());
    assert!(definition.get_element("approve").is_some());
    assert!(definition.get_element("gateway1").is_some());
    assert!(definition.get_element("notify").is_some());

    let mut context = ExecutionContext::new(definition, "instance".to_string());
    drive(&mut context).unwrap();

    // Process should be active after user task
    assert!(matches!(context.state, ProcessInstanceState::Active));
}

#[test]
fn test_escalation_event_parsing() {
    let xml = r#"<?xml version="1.0"?>
    <definitions xmlns="http://www.omg.org/spec/BPMN/20100524/MODEL">
      <process id="test_escalation" isExecutable="true">
        <startEvent id="start"/>
        <intermediateThrowEvent id="escalate1">
          <escalationEventDefinition escalationRef="managerEscalation"/>
        </intermediateThrowEvent>
        <endEvent id="end"/>
        <sequenceFlow id="f1" sourceRef="start" targetRef="escalate1"/>
        <sequenceFlow id="f2" sourceRef="escalate1" targetRef="end"/>
      </process>
    </definitions>"#;

    let definition = ProcessDefinition::from_xml(xml).unwrap();
    let element = definition.get_element("escalate1");
    assert!(element.is_some());
}

#[test]
fn test_multi_instance_loop_characteristics() {
    let xml = r#"<?xml version="1.0"?>
    <definitions xmlns="http://www.omg.org/spec/BPMN/20100524/MODEL">
      <process id="test_multi_instance" isExecutable="true">
        <startEvent id="start"/>
        <userTask id="parallelTask">
          <multiInstanceLoopCharacteristics isSequential="false">
            <loopCardinality>3</loopCardinality>
          </multiInstanceLoopCharacteristics>
        </userTask>
        <endEvent id="end"/>
        <sequenceFlow id="f1" sourceRef="start" targetRef="parallelTask"/>
        <sequenceFlow id="f2" sourceRef="parallelTask" targetRef="end"/>
      </process>
    </definitions>"#;

    let definition = ProcessDefinition::from_xml(xml).unwrap();
    let element = definition.get_element("parallelTask");
    assert!(element.is_some());
}