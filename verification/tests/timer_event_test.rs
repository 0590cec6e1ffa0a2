//! Timer event definitions read from BPMN XML.

use bpmn_engine::model::elements::{EventDefinition, ProcessElement};
use bpmn_engine::model::ProcessDefinition;

#[test]
fn test_parse_end_event_without_timer() {
    let xml = r#"
        <?xml version="1.0" encoding="UTF-8"?>
        <definitions xmlns="http://www.omg.org/spec/BPMN/20100524/MODEL">
            <process id="Process_1" isExecutable="true">
                <endEvent id="end1" name="End Event"/>
            </process>
        </definitions>
    "#;

    let result = ProcessDefinition::from_xml(xml);
    assert!(result.is_ok());

    let process = result.unwrap();
    let element = process.get_element("end1");

    match element {
        Some(ProcessElement::EndEvent(event)) => {
            assert_eq!(event.base.name, Some("End Event".to_string()));
            assert!(event.event_definition.is_none());
        }
        _ => panic!("Expected EndEvent"),
    }
}

fn event_definition(xml: &str, id: &str) -> Option<EventDefinition> {
    let process = ProcessDefinition::from_xml(xml).unwrap();
    match process.get_element(id) {
        Some(ProcessElement::StartEvent(e)) => e.event_definition.clone(),
        Some(ProcessElement::EndEvent(e)) => e.event_definition.clone(),
        Some(ProcessElement::IntermediateCatchEvent(e)) => e.event_definition.clone(),
        Some(ProcessElement::IntermediateThrowEvent(e)) => e.event_definition.clone(),
        _ => panic!("Expected an event"),
    }
}

fn time_definition(definition: Option<EventDefinition>) -> Option<String> {
    match definition {
        Some(EventDefinition::Timer { time_definition }) => time_definition,
        _ => panic!("Expected a Timer event definition"),
    }
}

#[test]
fn timer_duration_date_and_cycle_texts() {
    let duration = r#"<process id="p"><intermediateCatchEvent id="t" name="3 Day Timer">
        <timerEventDefinition><timeDuration>PT3D</timeDuration></timerEventDefinition>
        </intermediateCatchEvent></process>"#;
    assert_eq!(time_definition(event_definition(duration, "t")), Some("PT3D".to_string()));
    let date = r#"<process id="p"><startEvent id="s"><bpmn2:timerEventDefinition>
        <bpmn2:timeDate>2025-01-15T10:00:00</bpmn2:timeDate></bpmn2:timerEventDefinition></startEvent></process>"#;
    assert_eq!(time_definition(event_definition(date, "s")), Some("2025-01-15T10:00:00".to_string()));
    let cycle = r#"<process id="p"><intermediateCatchEvent id="c"><timerEventDefinition>
        <timeCycle>R3/PT1H</timeCycle></timerEventDefinition></intermediateCatchEvent></process>"#;
    assert_eq!(time_definition(event_definition(cycle, "c")), Some("R3/PT1H".to_string()));
    let bare = r#"<process id="p"><intermediateCatchEvent id="b"><timerEventDefinition/></intermediateCatchEvent></process>"#;
    assert_eq!(time_definition(event_definition(bare, "b")), None);
}

#[test]
fn message_error_and_terminate_definitions() {
    let xml = r#"<process id="p">
        <startEvent id="m"><messageEventDefinition messageRef="order"/></startEvent>
        <endEvent id="e"><errorEventDefinition errorRef="failure"/></endEvent>
        <endEvent id="t"><terminateEventDefinition/></endEvent>
        <userTask id="u"><signalEventDefinition signalRef="ignored"/></userTask>
        </process>"#;
    match event_definition(xml, "m") {
        Some(EventDefinition::Message { message_ref }) => assert_eq!(message_ref, Some("order".to_string())),
        _ => panic!("Expected a Message event definition"),
    }
    match event_definition(xml, "e") {
        Some(EventDefinition::Error { error_ref }) => assert_eq!(error_ref, Some("failure".to_string())),
        _ => panic!("Expected an Error event definition"),
    }
    assert!(matches!(event_definition(xml, "t"), Some(EventDefinition::Terminate)));
    let process = ProcessDefinition::from_xml(xml).unwrap();
    assert!(matches!(process.get_element("u"), Some(ProcessElement::UserTask(_))));
}

#[test]
fn text_outside_its_tag_is_ignored() {
    let xml = r#"<process id="p"><intermediateCatchEvent id="t"><timerEventDefinition>
        <timeDuration>PT1H</timeDuration><!-- note -->stray</timerEventDefinition>
        </intermediateCatchEvent></process>"#;
    assert_eq!(time_definition(event_definition(xml, "t")), Some("PT1H".to_string()));
}
