//! Signal event definitions read from BPMN XML.

use bpmn_engine::model::elements::{EventDefinition, ProcessElement};
use bpmn_engine::model::ProcessDefinition;

#[test]
fn test_parse_signal_throw_event() {
    let xml = r#"
        <?xml version="1.0" encoding="UTF-8"?>
        <definitions xmlns="http://www.omg.org/spec/BPMN/20100524/MODEL">
            <process id="Process_1" isExecutable="true">
                <intermediateThrowEvent id="signal1" name="Throw Signal">
                    <signalEventDefinition signalRef="approvalSignal"/>
                </intermediateThrowEvent>
            </process>
        </definitions>
    "#;

    let result = ProcessDefinition::from_xml(xml);
    assert!(result.is_ok(), "Failed to parse XML: {:?}", result.err());

    let process = result.unwrap();
    let element = process.get_element("signal1");

    match element {
        Some(ProcessElement::IntermediateThrowEvent(event)) => {
            assert_eq!(event.base.name, Some("Throw Signal".to_string()));

            match &event.event_definition {
                Some(EventDefinition::Signal { signal_ref }) => {
                    assert_eq!(signal_ref.as_deref(), Some("approvalSignal"));
                }
                _ => panic!("Expected Signal event definition"),
            }
        }
        _ => panic!("Expected IntermediateThrowEvent"),
    }
}

#[test]
fn test_parse_signal_catch_event() {
    let xml = r#"
        <?xml version="1.0" encoding="UTF-8"?>
        <definitions xmlns="http://www.omg.org/spec/BPMN/20100524/MODEL">
            <process id="Process_1" isExecutable="true">
                <intermediateCatchEvent id="catch1" name="Catch Signal">
                    <signalEventDefinition signalRef="approvalSignal"/>
                </intermediateCatchEvent>
            </process>
        </definitions>
    "#;

    let result = ProcessDefinition::from_xml(xml);
    assert!(result.is_ok(), "Failed to parse XML: {:?}", result.err());

    let process = result.unwrap();
    let element = process.get_element("catch1");

    match element {
        Some(ProcessElement::IntermediateCatchEvent(event)) => {
            assert_eq!(event.base.name, Some("Catch Signal".to_string()));

            match &event.event_definition {
                Some(EventDefinition::Signal { signal_ref }) => {
                    assert_eq!(signal_ref.as_deref(), Some("approvalSignal"));
                }
                _ => panic!("Expected Signal event definition"),
            }
        }
        _ => panic!("Expected IntermediateCatchEvent"),
    }
}

#[test]
fn test_parse_signal_event_with_bpmn2_namespace() {
    let xml = r#"
        <?xml version="1.0" encoding="UTF-8"?>
        <definitions xmlns="http://www.omg.org/spec/BPMN/20100524/MODEL">
            <process id="Process_1" isExecutable="true">
                <bpmn2:intermediateThrowEvent id="signal1" name="Signal Event">
                    <bpmn2:signalEventDefinition signalRef="testSignal"/>
                </bpmn2:intermediateThrowEvent>
            </process>
        </definitions>
    "#;

    let result = ProcessDefinition::from_xml(xml);
    assert!(result.is_ok(), "Failed to parse XML with bpmn2 namespace: {:?}", result.err());

    let process = result.unwrap();
    let element = process.get_element("signal1");

    match element {
        Some(ProcessElement::IntermediateThrowEvent(event)) => {
            assert_eq!(event.base.name, Some("Signal Event".to_string()));

            match &event.event_definition {
                Some(EventDefinition::Signal { signal_ref }) => {
                    assert_eq!(signal_ref.as_deref(), Some("testSignal"));
                }
                _ => panic!("Expected Signal event definition"),
            }
        }
        _ => panic!("Expected IntermediateThrowEvent"),
    }
}

#[test]
fn test_parse_signal_event_without_signal_ref() {
    let xml = r#"
        <?xml version="1.0" encoding="UTF-8"?>
        <definitions xmlns="http://www.omg.org/spec/BPMN/20100524/MODEL">
            <process id="Process_1" isExecutable="true">
                <intermediateThrowEvent id="signal1">
                    <signalEventDefinition/>
                </intermediateThrowEvent>
            </process>
        </definitions>
    "#;

    let result = ProcessDefinition::from_xml(xml);
    assert!(result.is_ok(), "Failed to parse XML: {:?}", result.err());

    let process = result.unwrap();
    let element = process.get_element("signal1");

    match element {
        Some(ProcessElement::IntermediateThrowEvent(event)) => {
            match &event.event_definition {
                Some(EventDefinition::Signal { signal_ref }) => {
                    assert!(signal_ref.is_none());
                }
                _ => panic!("Expected Signal event definition"),
            }
        }
        _ => panic!("Expected IntermediateThrowEvent"),
    }
}

#[test]
fn test_signal_throw_and_catch_flow() {
    // Test a complete flow with signal throw and catch
    let xml = r#"
        <?xml version="1.0" encoding="UTF-8"?>
        <definitions xmlns="http://www.omg.org/spec/BPMN/20100524/MODEL">
            <process id="Process_1" isExecutable="true">
                <startEvent id="start1"/>
                <intermediateThrowEvent id="throw1">
                    <signalEventDefinition signalRef="approvalSignal"/>
                </intermediateThrowEvent>
                <intermediateCatchEvent id="catch1">
                    <signalEventDefinition signalRef="approvalSignal"/>
                </intermediateCatchEvent>
                <endEvent id="end1"/>
                <sequenceFlow id="flow1" sourceRef="start1" targetRef="throw1"/>
                <sequenceFlow id="flow2" sourceRef="throw1" targetRef="catch1"/>
                <sequenceFlow id="flow3" sourceRef="catch1" targetRef="end1"/>
            </process>
        </definitions>
    "#;

    let result = ProcessDefinition::from_xml(xml);
    assert!(result.is_ok(), "Failed to parse XML: {:?}", result.err());

    let process = result.unwrap();

    // Verify throw event
    let throw_element = process.get_element("throw1");
    match throw_element {
        Some(ProcessElement::IntermediateThrowEvent(event)) => {
            match &event.event_definition {
                Some(EventDefinition::Signal { signal_ref }) => {
                    assert_eq!(signal_ref.as_deref(), Some("approvalSignal"));
                }
                _ => panic!("Expected Signal event definition for throw event"),
            }
        }
        _ => panic!("Expected IntermediateThrowEvent for throw1"),
    }

    // Verify catch event
    let catch_element = process.get_element("catch1");
    match catch_element {
        Some(ProcessElement::IntermediateCatchEvent(event)) => {
            match &event.event_definition {
                Some(EventDefinition::Signal { signal_ref }) => {
                    assert_eq!(signal_ref.as_deref(), Some("approvalSignal"));
                }
                _ => panic!("Expected Signal event definition for catch event"),
            }
        }
        _ => panic!("Expected IntermediateCatchEvent for catch1"),
    }
}