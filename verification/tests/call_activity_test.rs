//! Call activities read from BPMN XML and from their JSON form.

use bpmn_engine::model::elements::ProcessElement;
use bpmn_engine::model::ProcessDefinition;

#[test]
fn test_parse_call_activity_xml() {
    let xml = r#"<?xml version="1.0"?>
<definitions xmlns="http://www.omg.org/spec/BPMN/20100524/MODEL"
             xmlns:bpmn="http://www.omg.org/spec/BPMN/20100524/MODEL"
             id="Definitions_1">
  <process id="test" isExecutable="true">
    <callActivity id="call1" calledElement="subprocess1"/>
  </process>
</definitions>"#;

    let result = ProcessDefinition::from_xml(xml);
    assert!(result.is_ok(), "Failed to parse: {:?}", result.err());

    let process = result.unwrap();
    let element = process.get_element("call1");
    assert!(element.is_some(), "Call activity 'call1' not found");

    match element.unwrap() {
        ProcessElement::CallActivity(ca) => {
            assert_eq!(ca.base.id, "call1");
            assert_eq!(ca.called_element.as_deref(), Some("subprocess1"));
            assert!(ca.business_key.is_none());
        }
        _ => panic!("Expected CallActivity"),
    }
}

#[test]
fn test_parse_call_activity_with_business_key() {
    let xml = r#"<?xml version="1.0"?>
<definitions xmlns="http://www.omg.org/spec/BPMN/20100524/MODEL"
             xmlns:bpmn="http://www.omg.org/spec/BPMN/20100524/MODEL"
             id="Definitions_1">
  <process id="test" isExecutable="true">
    <callActivity id="call2" calledElement="subprocess2" businessKey="${execution.businessKey}"/>
  </process>
</definitions>"#;

    let result = ProcessDefinition::from_xml(xml);
    assert!(result.is_ok());

    let process = result.unwrap();
    let element = process.get_element("call2").unwrap();

    match element {
        ProcessElement::CallActivity(ca) => {
            assert_eq!(ca.base.id, "call2");
            assert_eq!(ca.called_element.as_deref(), Some("subprocess2"));
            assert_eq!(ca.business_key.as_deref(), Some("${execution.businessKey}"));
        }
        _ => panic!("Expected CallActivity"),
    }
}

#[test]
fn test_parse_call_activity_with_name() {
    let xml = r#"<?xml version="1.0"?>
<definitions xmlns="http://www.omg.org/spec/BPMN/20100524/MODEL"
             xmlns:bpmn="http://www.omg.org/spec/BPMN/20100524/MODEL"
             id="Definitions_1">
  <process id="test" isExecutable="true">
    <callActivity id="call3" name="Invoke Subprocess" calledElement="subprocess3"/>
  </process>
</definitions>"#;

    let result = ProcessDefinition::from_xml(xml);
    assert!(result.is_ok());

    let process = result.unwrap();
    let element = process.get_element("call3").unwrap();

    match element {
        ProcessElement::CallActivity(ca) => {
            assert_eq!(ca.base.id, "call3");
            assert_eq!(ca.base.name.as_deref(), Some("Invoke Subprocess"));
            assert_eq!(ca.called_element.as_deref(), Some("subprocess3"));
        }
        _ => panic!("Expected CallActivity"),
    }
}

#[test]
fn test_parse_call_activity_with_data_associations() {
    let xml = r#"<?xml version="1.0"?>
<definitions xmlns="http://www.omg.org/spec/BPMN/20100524/MODEL"
             xmlns:bpmn="http://www.omg.org/spec/BPMN/20100524/MODEL"
             id="Definitions_1">
  <process id="test" isExecutable="true">
    <callActivity id="call4" calledElement="subprocess4">
      <dataInputAssociation>
        <sourceRef>inputVar</sourceRef>
        <targetRef>inputParam</targetRef>
      </dataInputAssociation>
      <dataOutputAssociation>
        <sourceRef>outputParam</sourceRef>
        <targetRef>resultVar</targetRef>
      </dataOutputAssociation>
    </callActivity>
  </process>
</definitions>"#;

    let result = ProcessDefinition::from_xml(xml);
    assert!(result.is_ok());

    let process = result.unwrap();
    let element = process.get_element("call4").unwrap();

    match element {
        ProcessElement::CallActivity(ca) => {
            assert_eq!(ca.base.id, "call4");
            assert_eq!(ca.called_element.as_deref(), Some("subprocess4"));
            assert_eq!(ca.data_input_associations.len(), 1);
            assert_eq!(ca.data_output_associations.len(), 1);
            assert_eq!(ca.data_input_associations[0].source_ref.as_deref(), Some("inputVar"));
            assert_eq!(ca.data_input_associations[0].target_ref.as_deref(), Some("inputParam"));
            assert_eq!(ca.data_output_associations[0].source_ref.as_deref(), Some("outputParam"));
            assert_eq!(ca.data_output_associations[0].target_ref.as_deref(), Some("resultVar"));
        }
        _ => panic!("Expected CallActivity"),
    }
}

use bpmn_engine::model::json::{BpmnJsonCallActivity, BpmnJsonElement, BpmnJsonElementBase, BpmnJsonProcess};

fn json_call_activity(id: &str, name: Option<&str>, called: &str, business_key: Option<&str>) -> BpmnJsonProcess {
    BpmnJsonProcess {
        id: "test".to_string(),
        name: Some("Test Process".to_string()),
        process_type: "process".to_string(),
        is_executable: true,
        elements: vec![BpmnJsonElement::CallActivity(BpmnJsonCallActivity {
            base: BpmnJsonElementBase {
                id: id.to_string(),
                name: name.map(|n| n.to_string()),
                documentation: None,
            },
            called_element: Some(called.to_string()),
            business_key: business_key.map(|k| k.to_string()),
            data_input_associations: Vec::new(),
            data_output_associations: Vec::new(),
        })],
        variables: Vec::new(),
    }
}

#[test]
fn test_call_activity_json_roundtrip() {
    let process = ProcessDefinition::from_bpmn_json(json_call_activity(
        "call1",
        Some("Call Subprocess"),
        "subprocess1",
        Some("${initiator}"),
    ))
    .unwrap();
    let element = process.get_element("call1").unwrap();

    match element {
        ProcessElement::CallActivity(ca) => {
            assert_eq!(ca.base.id, "call1");
            assert_eq!(ca.base.name.as_deref(), Some("Call Subprocess"));
            assert_eq!(ca.called_element.as_deref(), Some("subprocess1"));
            assert_eq!(ca.business_key.as_deref(), Some("${initiator}"));
        },
        _ => panic!("Expected CallActivity"),
    }

    let json = process.to_bpmn_json();
    match &json.elements[0] {
        BpmnJsonElement::CallActivity(ca) => {
            assert_eq!(ca.called_element.as_deref(), Some("subprocess1"));
            assert_eq!(ca.business_key.as_deref(), Some("${initiator}"));
        },
        _ => panic!("Expected CallActivity JSON element"),
    }
}

#[test]
fn test_call_activity_element_id() {
    let process =
        ProcessDefinition::from_bpmn_json(json_call_activity("myCallActivity", None, "target", None)).unwrap();
    let element = process.get_element("myCallActivity").unwrap();
    assert_eq!(element.id(), "myCallActivity");
}

#[test]
fn test_call_activity_to_json() {
    let process = ProcessDefinition::from_bpmn_json(json_call_activity("call1", None, "subprocess1", None)).unwrap();
    let element = process.get_element("call1").unwrap();

    let json_elem = element.to_json_element();
    match json_elem {
        BpmnJsonElement::CallActivity(ca) => {
            assert_eq!(ca.base.id, "call1");
            assert_eq!(ca.called_element.as_deref(), Some("subprocess1"));
        },
        _ => panic!("Expected CallActivity JSON element"),
    }
}

#[test]
fn associations_fill_in_order_and_only_in_call_activities() {
    let xml = r#"<process id="p">
      <callActivity id="c">
        <dataInputAssociation><sourceRef>a</sourceRef><targetRef>b</targetRef></dataInputAssociation>
        <dataInputAssociation><targetRef>d</targetRef></dataInputAssociation>
        <dataOutputAssociation><sourceRef>e</sourceRef></dataOutputAssociation>
      </callActivity>
      <serviceTask id="s"><dataInputAssociation><sourceRef>x</sourceRef></dataInputAssociation></serviceTask>
    </process>"#;
    let process = ProcessDefinition::from_xml(xml).unwrap();
    match process.get_element("c").unwrap() {
        ProcessElement::CallActivity(ca) => {
            assert_eq!(ca.data_input_associations.len(), 2);
            assert_eq!(ca.data_input_associations[0].source_ref.as_deref(), Some("a"));
            assert_eq!(ca.data_input_associations[0].target_ref.as_deref(), Some("b"));
            assert_eq!(ca.data_input_associations[1].source_ref, None);
            assert_eq!(ca.data_input_associations[1].target_ref.as_deref(), Some("d"));
            assert_eq!(ca.data_output_associations.len(), 1);
            assert_eq!(ca.data_output_associations[0].source_ref.as_deref(), Some("e"));
            assert_eq!(ca.data_output_associations[0].transformation, None);
            assert!(ca.called_element.is_none());
        },
        _ => panic!("Expected CallActivity"),
    }
    assert!(matches!(process.get_element("s"), Some(ProcessElement::ServiceTask(_))));
}
