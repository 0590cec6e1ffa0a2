//! Escalation event definitions read from BPMN XML.

use bpmn_engine::model::elements::{EventDefinition, ProcessElement};
use bpmn_engine::model::ProcessDefinition;

#[test]
fn test_parse_escalation_throw_event() {
    let xml = r#"
        <?xml version="1.0" encoding="UTF-8"?>
        <definitions xmlns="http://www.omg.org/spec/BPMN/20100524/MODEL">
            <process id="Process_1" isExecutable="true">
                <intermediateThrowEvent id="escalate1" name="Escalate">
                    <escalationEventDefinition escalationRef="pmo_intervention"/>
                </intermediateThrowEvent>
            </process>
        </definitions>
    "#;

    let result = ProcessDefinition::from_xml(xml);
    assert!(result.is_ok(), "Failed to parse XML: {:?}", result.err());

    let process = result.unwrap();
    let element = process.get_element("escalate1");

    match element {
        Some(ProcessElement::IntermediateThrowEvent(event)) => {
            assert_eq!(event.base.name, Some("Escalate".to_string()));

            match &event.event_definition {
                Some(EventDefinition::Escalation { escalation_ref }) => {
                    assert_eq!(escalation_ref.as_deref(), Some("pmo_intervention"));
                }
                _ => panic!("Expected Escalation event definition"),
            }
        }
        _ => panic!("Expected IntermediateThrowEvent"),
    }
}

#[test]
fn test_parse_escalation_catch_event() {
    let xml = r#"
        <?xml version="1.0" encoding="UTF-8"?>
        <definitions xmlns="http://www.omg.org/spec/BPMN/20100524/MODEL">
            <process id="Process_1" isExecutable="true">
                <intermediateCatchEvent id="escalate_catch" name="Catch Escalation">
                    <escalationEventDefinition escalationRef="pmo_intervention"/>
                </intermediateCatchEvent>
            </process>
        </definitions>
    "#;

    let result = ProcessDefinition::from_xml(xml);
    assert!(result.is_ok(), "Failed to parse XML: {:?}", result.err());

    let process = result.unwrap();
    let element = process.get_element("escalate_catch");

    match element {
        Some(ProcessElement::IntermediateCatchEvent(event)) => {
            assert_eq!(event.base.name, Some("Catch Escalation".to_string()));

            match &event.event_definition {
                Some(EventDefinition::Escalation { escalation_ref }) => {
                    assert_eq!(escalation_ref.as_deref(), Some("pmo_intervention"));
                }
                _ => panic!("Expected Escalation event definition"),
            }
        }
        _ => panic!("Expected IntermediateCatchEvent"),
    }
}

#[test]
fn test_parse_escalation_event_with_bpmn2_namespace() {
    let xml = r#"
        <?xml version="1.0" encoding="UTF-8"?>
        <definitions xmlns="http://www.omg.org/spec/BPMN/20100524/MODEL">
            <process id="Process_1" isExecutable="true">
                <bpmn2:intermediateThrowEvent id="esc1" name="Escalation Event">
                    <bpmn2:escalationEventDefinition escalationRef="esc_signal"/>
                </bpmn2:intermediateThrowEvent>
            </process>
        </definitions>
    "#;

    let result = ProcessDefinition::from_xml(xml);
    assert!(result.is_ok(), "Failed to parse XML with bpmn2 namespace: {:?}", result.err());

    let process = result.unwrap();
    let element = process.get_element("esc1");

    match element {
        Some(ProcessElement::IntermediateThrowEvent(event)) => {
            assert_eq!(event.base.name, Some("Escalation Event".to_string()));

            match &event.event_definition {
                Some(EventDefinition::Escalation { escalation_ref }) => {
                    assert_eq!(escalation_ref.as_deref(), Some("esc_signal"));
                }
                _ => panic!("Expected Escalation event definition"),
            }
        }
        _ => panic!("Expected IntermediateThrowEvent"),
    }
}

#[test]
fn test_parse_escalation_event_without_escalation_ref() {
    let xml = r#"
        <?xml version="1.0" encoding="UTF-8"?>
        <definitions xmlns="http://www.omg.org/spec/BPMN/20100524/MODEL">
            <process id="Process_1" isExecutable="true">
                <intermediateThrowEvent id="esc1">
                    <escalationEventDefinition/>
                </intermediateThrowEvent>
            </process>
        </definitions>
    "#;

    let result = ProcessDefinition::from_xml(xml);
    assert!(result.is_ok(), "Failed to parse XML: {:?}", result.err());

    let process = result.unwrap();
    let element = process.get_element("esc1");

    match element {
        Some(ProcessElement::IntermediateThrowEvent(event)) => {
            match &event.event_definition {
                Some(EventDefinition::Escalation { escalation_ref }) => {
                    assert!(escalation_ref.is_none());
                }
                _ => panic!("Expected Escalation event definition"),
            }
        }
        _ => panic!("Expected IntermediateThrowEvent"),
    }
}

#[test]
fn test_escalation_throw_and_catch_flow() {
    // Test a complete flow with escalation throw and catch
    let xml = r#"
        <?xml version="1.0" encoding="UTF-8"?>
        <definitions xmlns="http://www.omg.org/spec/BPMN/20100524/MODEL">
            <process id="Process_1" isExecutable="true">
                <startEvent id="start1"/>
                <intermediateThrowEvent id="throw_esc">
                    <escalationEventDefinition escalationRef="pmo_intervention"/>
                </intermediateThrowEvent>
                <intermediateCatchEvent id="catch_esc">
                    <escalationEventDefinition escalationRef="pmo_intervention"/>
                </intermediateCatchEvent>
                <endEvent id="end1"/>
                <sequenceFlow id="flow1" sourceRef="start1" targetRef="throw_esc"/>
                <sequenceFlow id="flow2" sourceRef="throw_esc" targetRef="catch_esc"/>
                <sequenceFlow id="flow3" sourceRef="catch_esc" targetRef="end1"/>
            </process>
        </definitions>
    "#;

    let result = ProcessDefinition::from_xml(xml);
    assert!(result.is_ok(), "Failed to parse XML: {:?}", result.err());

    let process = result.unwrap();

    // Verify throw event
    let throw_element = process.get_element("throw_esc");
    match throw_element {
        Some(ProcessElement::IntermediateThrowEvent(event)) => {
            match &event.event_definition {
                Some(EventDefinition::Escalation { escalation_ref }) => {
                    assert_eq!(escalation_ref.as_deref(), Some("pmo_intervention"));
                }
                _ => panic!("Expected Escalation event definition for throw event"),
            }
        }
        _ => panic!("Expected IntermediateThrowEvent for throw_esc"),
    }

    // Verify catch event
    let catch_element = process.get_element("catch_esc");
    match catch_element {
        Some(ProcessElement::IntermediateCatchEvent(event)) => {
            match &event.event_definition {
                Some(EventDefinition::Escalation { escalation_ref }) => {
                    assert_eq!(escalation_ref.as_deref(), Some("pmo_intervention"));
                }
                _ => panic!("Expected Escalation event definition for catch event"),
            }
        }
        _ => panic!("Expected IntermediateCatchEvent for catch_esc"),
    }
}