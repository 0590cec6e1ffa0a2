//! Process elements and definitions built from their JSON forms.

use bpmn_engine::json_value::JsonValue;
use bpmn_engine::model::elements::{
    ConditionExpression, EventDefinition, ProcessDefinition, ProcessElement, Variable,
};
use bpmn_engine::model::format::ParseError;
use bpmn_engine::model::json::{
    BpmnJsonConditionExpression, BpmnJsonElement, BpmnJsonElementBase, BpmnJsonEndEvent, BpmnJsonEventDefinition,
    BpmnJsonIoMapping, BpmnJsonProcess, BpmnJsonSequenceFlow, BpmnJsonServiceTask, BpmnJsonStartEvent,
    BpmnJsonVariable,
};

fn json_base(id: &str, name: Option<&str>) -> BpmnJsonElementBase {
    BpmnJsonElementBase { id: id.to_string(), name: name.map(|n| n.to_string()), documentation: None }
}

fn json_start(id: &str) -> BpmnJsonElement {
    BpmnJsonElement::StartEvent(BpmnJsonStartEvent { base: json_base(id, None), event_definition: None })
}

fn json_end(id: &str) -> BpmnJsonElement {
    BpmnJsonElement::EndEvent(BpmnJsonEndEvent { base: json_base(id, None), event_definition: None })
}

fn json_flow(id: &str, source: &str, target: &str) -> BpmnJsonElement {
    BpmnJsonElement::SequenceFlow(BpmnJsonSequenceFlow {
        base: json_base(id, None),
        source_ref: source.to_string(),
        target_ref: target.to_string(),
        condition_expression: None,
    })
}

fn json_process(name: Option<&str>, elements: Vec<BpmnJsonElement>) -> BpmnJsonProcess {
    BpmnJsonProcess {
        id: "process1".to_string(),
        name: name.map(|n| n.to_string()),
        process_type: "process".to_string(),
        is_executable: true,
        elements,
        variables: Vec::new(),
    }
}

fn start_to_end() -> ProcessDefinition {
    ProcessDefinition::from_bpmn_json(json_process(
        None,
        vec![json_start("start1"), json_end("end1"), json_flow("flow1", "start1", "end1")],
    ))
    .unwrap()
}

#[test]
fn test_process_element_from_json_start_event() {
    let json_elem = BpmnJsonElement::StartEvent(BpmnJsonStartEvent {
        base: json_base("start1", Some("Start")),
        event_definition: None,
    });

    let elem = ProcessElement::from_json_element(json_elem).unwrap();
    match elem {
        ProcessElement::StartEvent(e) => {
            assert_eq!(e.base.id, "start1");
            assert_eq!(e.base.name, Some("Start".to_string()));
        },
        _ => panic!("Expected StartEvent"),
    }
}

#[test]
fn test_process_element_from_json_end_event() {
    let json_elem = BpmnJsonElement::EndEvent(BpmnJsonEndEvent {
        base: json_base("end1", Some("End")),
        event_definition: None,
    });

    let elem = ProcessElement::from_json_element(json_elem).unwrap();
    match elem {
        ProcessElement::EndEvent(e) => {
            assert_eq!(e.base.id, "end1");
        },
        _ => panic!("Expected EndEvent"),
    }
}

#[test]
fn test_process_element_from_json_service_task() {
    let json_elem = BpmnJsonElement::ServiceTask(BpmnJsonServiceTask {
        base: json_base("task1", Some("Task")),
        implementation: Some("webService".to_string()),
        operation_ref: None,
        io_mapping: BpmnJsonIoMapping::default(),
        loop_characteristics: None,
    });

    let elem = ProcessElement::from_json_element(json_elem).unwrap();
    match elem {
        ProcessElement::ServiceTask(t) => {
            assert_eq!(t.base.id, "task1");
            assert_eq!(t.implementation, Some("webService".to_string()));
        },
        _ => panic!("Expected ServiceTask"),
    }
}

#[test]
fn test_process_element_id() {
    let elem = ProcessElement::from_json_element(json_start("start1")).unwrap();
    assert_eq!(elem.id(), "start1");
}

#[test]
fn test_process_definition_from_json() {
    let definition = ProcessDefinition::from_bpmn_json(json_process(
        Some("Test Process"),
        vec![json_start("start1"), json_end("end1"), json_flow("flow1", "start1", "end1")],
    ))
    .unwrap();
    assert_eq!(definition.id, "process1");
    assert_eq!(definition.name, Some("Test Process".to_string()));
    assert_eq!(definition.elements.len(), 2);
    assert_eq!(definition.flows.len(), 1);
}

#[test]
fn test_process_definition_get_element() {
    let definition = ProcessDefinition::from_bpmn_json(json_process(None, vec![json_start("start1")])).unwrap();
    let element = definition.get_element("start1");
    assert!(element.is_some());
    assert_eq!(element.unwrap().id(), "start1");
}

#[test]
fn test_process_definition_get_flow() {
    let definition = start_to_end();
    let flow = definition.get_flow("flow1");
    assert!(flow.is_some());
    assert_eq!(flow.unwrap().id, "flow1");
    assert_eq!(flow.unwrap().source_ref, "start1");
    assert_eq!(flow.unwrap().target_ref, "end1");
}

#[test]
fn test_process_definition_get_outgoing_flows() {
    let definition = start_to_end();
    let flows = definition.get_outgoing_flows("start1");
    assert_eq!(flows.len(), 1);
    assert_eq!(flows[0].id, "flow1");
}

#[test]
fn test_process_definition_get_incoming_flows() {
    let definition = start_to_end();
    let flows = definition.get_incoming_flows("end1");
    assert_eq!(flows.len(), 1);
    assert_eq!(flows[0].id, "flow1");
}

#[test]
fn test_process_definition_from_json_error_sequence_flow() {
    let result = ProcessElement::from_json_element(json_flow("flow1", "start1", "end1"));
    assert!(result.is_err());
    match result {
        Err(ParseError::Json(_)) => {},
        _ => panic!("Expected a JSON error"),
    }
}

#[test]
fn test_event_definition_from_json() {
    let json_def = BpmnJsonEventDefinition::Message { message_ref: Some("msg1".to_string()) };

    let def = EventDefinition::from_json(json_def);
    match def {
        EventDefinition::Message { message_ref } => {
            assert_eq!(message_ref, Some("msg1".to_string()));
        },
        _ => panic!("Expected Message event definition"),
    }
}

#[test]
fn test_condition_expression_from_json() {
    let json_cond = BpmnJsonConditionExpression { language: Some("javascript".to_string()), body: "true".to_string() };

    let cond = ConditionExpression::from_json(json_cond);
    assert_eq!(cond.language, Some("javascript".to_string()));
    assert_eq!(cond.body, "true");
}

#[test]
fn test_variable_from_json() {
    let json_var = BpmnJsonVariable {
        name: "var1".to_string(),
        variable_type: Some("string".to_string()),
        default_value: Some(JsonValue::String("test".to_string())),
    };

    let var = Variable::from_json(json_var);
    assert_eq!(var.name, "var1");
    assert_eq!(var.variable_type, Some("string".to_string()));
    assert_eq!(var.default_value, Some(JsonValue::String("test".to_string())));
}

#[test]
fn later_element_with_same_id_replaces_earlier() {
    let mut second = json_end("a");
    if let BpmnJsonElement::EndEvent(e) = &mut second {
        e.base.name = Some("second".to_string());
    }
    let definition = ProcessDefinition::from_bpmn_json(json_process(None, vec![json_start("a"), second])).unwrap();
    assert_eq!(definition.elements.len(), 1);
    match definition.get_element("a") {
        Some(ProcessElement::EndEvent(e)) => assert_eq!(e.base.name, Some("second".to_string())),
        _ => panic!("Expected the later EndEvent"),
    }
}

#[test]
fn json_form_round_trips() {
    let definition = start_to_end();
    let again = ProcessDefinition::from_bpmn_json(definition.to_bpmn_json()).unwrap();
    assert_eq!(again.id, definition.id);
    assert_eq!(again.elements.len(), definition.elements.len());
    assert_eq!(again.flows.len(), definition.flows.len());
    assert_eq!(again.get_flow("flow1").unwrap().target_ref, "end1");
    assert!(definition.get_outgoing_flows("end1").is_empty());
    assert!(definition.get_element("missing").is_none());
}

#[test]
fn clone_keeps_the_definition() {
    let definition = start_to_end();
    let copy = definition.clone();
    assert_eq!(copy.id, definition.id);
    assert_eq!(copy.elements.len(), 2);
    assert_eq!(copy.get_flow("flow1").unwrap().source_ref, "start1");
}
