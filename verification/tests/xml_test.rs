//! XML parsing and serialization tests

use bpmn_engine::model::format::{BpmnFormat, DetectionError, FormatDetector, JsonParser, ParseError, SerializeError, XmlParser};
use bpmn_engine::model::{parse_bpmn_xml, serialize_bpmn_xml, ProcessDefinition, ProcessElement};

#[test]
fn test_format_detection_xml() {
    let xml = r#"<?xml version="1.0" encoding="UTF-8"?>
<bpmn2:definitions xmlns:bpmn2="http://www.omg.org/spec/BPMN/20100524/MODEL">
  <bpmn2:process id="test" isExecutable="true">
    <bpmn2:startEvent id="start" />
  </bpmn2:process>
</bpmn2:definitions>"#;

    let format = FormatDetector::detect(xml).unwrap();
    assert_eq!(format, BpmnFormat::Xml);
}

#[test]
fn test_format_detection_json() {
    let json = r#"{"id":"test","processType":"process","isExecutable":true,"elements":[]}"#;
    
    let format = FormatDetector::detect(json).unwrap();
    assert_eq!(format, BpmnFormat::Json);
}

#[test]
fn test_format_detection_empty() {
    let result = FormatDetector::detect("");
    assert!(result.is_err());
}

#[test]
fn test_parse_simple_xml() {
    let xml = r#"<?xml version="1.0" encoding="UTF-8"?>
<bpmn2:definitions xmlns:bpmn2="http://www.omg.org/spec/BPMN/20100524/MODEL">
  <bpmn2:process id="test_process" name="Test Process" isExecutable="true">
    <bpmn2:startEvent id="start" name="Start" />
    <bpmn2:endEvent id="end" name="End" />
    <bpmn2:sequenceFlow id="flow1" sourceRef="start" targetRef="end" />
  </bpmn2:process>
</bpmn2:definitions>"#;

    let result = parse_bpmn_xml(xml);
    assert!(result.is_ok());
    
    let definition = result.unwrap();
    assert_eq!(definition.id, "test_process");
    assert_eq!(definition.name, Some("Test Process".to_string()));
    assert!(definition.is_executable);
    assert_eq!(definition.elements.len(), 2);
    assert_eq!(definition.flows.len(), 1);
}

#[test]
fn test_parse_xml_with_tasks() {
    let xml = r#"<?xml version="1.0" encoding="UTF-8"?>
<bpmn2:definitions xmlns:bpmn2="http://www.omg.org/spec/BPMN/20100524/MODEL">
  <bpmn2:process id="process1" isExecutable="true">
    <bpmn2:startEvent id="start" />
    <bpmn2:serviceTask id="task1" name="Service Task" />
    <bpmn2:userTask id="task2" name="User Task" />
    <bpmn2:endEvent id="end" />
    <bpmn2:sequenceFlow id="flow1" sourceRef="start" targetRef="task1" />
    <bpmn2:sequenceFlow id="flow2" sourceRef="task1" targetRef="task2" />
    <bpmn2:sequenceFlow id="flow3" sourceRef="task2" targetRef="end" />
  </bpmn2:process>
</bpmn2:definitions>"#;

    let result = parse_bpmn_xml(xml);
    assert!(result.is_ok());
    
    let definition = result.unwrap();
    assert_eq!(definition.elements.len(), 4); // start, task1, task2, end
    assert_eq!(definition.flows.len(), 3);
}

#[test]
fn test_parse_xml_with_gateways() {
    let xml = r#"<?xml version="1.0" encoding="UTF-8"?>
<bpmn2:definitions xmlns:bpmn2="http://www.omg.org/spec/BPMN/20100524/MODEL">
  <bpmn2:process id="process1" isExecutable="true">
    <bpmn2:startEvent id="start" />
    <bpmn2:exclusiveGateway id="gateway1" />
    <bpmn2:parallelGateway id="gateway2" />
    <bpmn2:endEvent id="end" />
  </bpmn2:process>
</bpmn2:definitions>"#;

    let result = parse_bpmn_xml(xml);
    assert!(result.is_ok());
    
    let definition = result.unwrap();
    assert_eq!(definition.elements.len(), 4);
}

#[test]
fn test_serialize_xml() {
    let xml = r#"<?xml version="1.0" encoding="UTF-8"?>
<bpmn2:definitions xmlns:bpmn2="http://www.omg.org/spec/BPMN/20100524/MODEL">
  <bpmn2:process id="test_process" isExecutable="true">
    <bpmn2:startEvent id="start" />
    <bpmn2:endEvent id="end" />
    <bpmn2:sequenceFlow id="flow1" sourceRef="start" targetRef="end" />
  </bpmn2:process>
</bpmn2:definitions>"#;

    let definition = parse_bpmn_xml(xml).unwrap();
    let serialized = serialize_bpmn_xml(&definition).unwrap();
    
    // Verify serialized XML contains key elements
    assert!(serialized.contains("bpmn2:definitions"));
    assert!(serialized.contains("bpmn2:process"));
    assert!(serialized.contains("test_process"));
    assert!(serialized.contains("bpmn2:startEvent"));
    assert!(serialized.contains("bpmn2:endEvent"));
    assert!(serialized.contains("bpmn2:sequenceFlow"));
}

#[test]
fn test_round_trip_xml() {
    let xml = r#"<?xml version="1.0" encoding="UTF-8"?>
<bpmn2:definitions xmlns:bpmn2="http://www.omg.org/spec/BPMN/20100524/MODEL">
  <bpmn2:process id="roundtrip_test" name="Round Trip Test" isExecutable="true">
    <bpmn2:startEvent id="start" name="Start" />
    <bpmn2:serviceTask id="task1" name="Task 1" />
    <bpmn2:endEvent id="end" name="End" />
    <bpmn2:sequenceFlow id="flow1" sourceRef="start" targetRef="task1" />
    <bpmn2:sequenceFlow id="flow2" sourceRef="task1" targetRef="end" />
  </bpmn2:process>
</bpmn2:definitions>"#;

    let definition1 = parse_bpmn_xml(xml).unwrap();
    let serialized = serialize_bpmn_xml(&definition1).unwrap();
    let definition2 = parse_bpmn_xml(&serialized).unwrap();
    
    assert_eq!(definition1.id, definition2.id);
    assert_eq!(definition1.name, definition2.name);
    assert_eq!(definition1.elements.len(), definition2.elements.len());
    assert_eq!(definition1.flows.len(), definition2.flows.len());
}

#[test]
fn test_parse_xml_invalid() {
    let invalid_xml = "not xml";
    
    let result = parse_bpmn_xml(invalid_xml);
    assert!(result.is_err());
}

const SIMPLE: &str = r#"<?xml version="1.0"?>
<bpmn2:definitions xmlns:bpmn2="http://www.omg.org/spec/BPMN/20100524/MODEL">
  <bpmn2:process id="p" name="P &amp; Q" isExecutable="false">
    <bpmn2:startEvent id="s" name="S"/>
    <bpmn2:endEvent id="e"/>
    <bpmn2:sequenceFlow id="f" name="go" sourceRef="s" targetRef="e"/>
  </bpmn2:process>
</bpmn2:definitions>"#;

#[test]
fn attributes_are_read_as_written() {
    let definition = ProcessDefinition::from_xml(SIMPLE).unwrap();
    assert_eq!(definition.id, "p");
    assert_eq!(definition.name, Some("P &amp; Q".to_string()));
    assert!(!definition.is_executable);
    assert_eq!(definition.process_type, "process");
    assert!(definition.variables.is_empty());
    let flow = definition.get_flow("f").unwrap();
    assert_eq!(flow.name, Some("go".to_string()));
    assert_eq!(flow.source_ref, "s");
    assert_eq!(flow.target_ref, "e");
    assert!(flow.condition_expression.is_none());
}

#[test]
fn serialized_text_is_exact() {
    let xml = r#"<process id="p" isExecutable="true"><startEvent id="s" name="A &amp; B"/><scriptTask id="t"/><endEvent id="e"/><sequenceFlow id="f" sourceRef="s" targetRef="e"/></process>"#;
    let definition = parse_bpmn_xml(xml).unwrap();
    let text = definition.to_xml().unwrap();
    let expected = [
        r#"<?xml version="1.0" encoding="UTF-8"?>"#,
        r#"<bpmn2:definitions xmlns:bpmn2="http://www.omg.org/spec/BPMN/20100524/MODEL" "#,
        r#"xmlns:bpmndi="http://www.omg.org/spec/BPMN/20100524/DI" "#,
        r#"xmlns:dc="http://www.omg.org/spec/DD/20100524/DC" "#,
        r#"xmlns:di="http://www.omg.org/spec/DD/20100524/DI" "#,
        r#"id="Definitions" targetNamespace="http://bpmn.io/schema/bpmn">"#,
        r#"<bpmn2:process id="p" isExecutable="true">"#,
        r#"<bpmn2:startEvent id="s" name="A &amp;amp; B"/>"#,
        r#"<bpmn2:scriptTask id="t"/>"#,
        r#"<bpmn2:endEvent id="e"/>"#,
        r#"<bpmn2:sequenceFlow id="f" sourceRef="s" targetRef="e"/>"#,
        r#"</bpmn2:process></bpmn2:definitions>"#,
    ]
    .concat();
    assert_eq!(text, expected);
}

#[test]
fn missing_process_id_is_an_error() {
    let xml = r#"<definitions><process isExecutable="true"><startEvent id="s"/></process></definitions>"#;
    match parse_bpmn_xml(xml) {
        Err(ParseError::Xml(m)) => assert_eq!(m, "Process ID not found"),
        other => panic!("Expected the missing process ID error, got {:?}", other),
    }
}

#[test]
fn reader_error_is_reported() {
    match parse_bpmn_xml(r#"<process id="p"><startEvent id="s"></process>"#) {
        Err(ParseError::Xml(m)) => assert!(m.starts_with("XML parse error: ")),
        other => panic!("Expected an XML error, got {:?}", other),
    }
    let message = parse_bpmn_xml("not xml").unwrap_err().message();
    assert!(message.contains("Process ID not found"));
}

#[test]
fn later_element_with_same_id_replaces_earlier_in_xml() {
    let xml = r#"<process id="p"><startEvent id="a"/><userTask id="b" formKey="k"/><endEvent id="a" name="again"/></process>"#;
    let definition = parse_bpmn_xml(xml).unwrap();
    assert_eq!(definition.elements.len(), 2);
    assert_eq!(definition.elements[0].id(), "a");
    match definition.get_element("a") {
        Some(ProcessElement::EndEvent(e)) => assert_eq!(e.base.name, Some("again".to_string())),
        _ => panic!("Expected the later EndEvent"),
    }
    match definition.get_element("b") {
        Some(ProcessElement::UserTask(t)) => assert_eq!(t.form_key, Some("k".to_string())),
        _ => panic!("Expected a UserTask"),
    }
    assert!(definition.is_executable);
}

#[test]
fn elements_without_id_and_flows_without_ends_are_skipped() {
    let xml = r#"<process id="p"><startEvent name="nameless"/><sequenceFlow id="f" sourceRef="a"/></process>"#;
    let definition = parse_bpmn_xml(xml).unwrap();
    assert!(definition.elements.is_empty());
    assert!(definition.flows.is_empty());
}

#[test]
fn condition_expression_of_a_flow() {
    let xml = r#"<bpmn:process id="p">
      <bpmn:exclusiveGateway id="g" default="f2"/>
      <bpmn:sequenceFlow id="f1" sourceRef="g" targetRef="t">
        <bpmn:conditionExpression language="simple">status = approved</bpmn:conditionExpression>
      </bpmn:sequenceFlow>
      <bpmn:sequenceFlow id="f2" sourceRef="g" targetRef="u"/>
    </bpmn:process>"#;
    let definition = parse_bpmn_xml(xml).unwrap();
    let condition = definition.get_flow("f1").unwrap().condition_expression.as_ref().unwrap();
    assert_eq!(condition.body, "status = approved");
    assert_eq!(condition.language, Some("simple".to_string()));
    assert!(definition.get_flow("f2").unwrap().condition_expression.is_none());
    match definition.get_element("g") {
        Some(ProcessElement::ExclusiveGateway(g)) => assert_eq!(g.default_flow, Some("f2".to_string())),
        _ => panic!("Expected an ExclusiveGateway"),
    }
}

#[test]
fn service_task_attributes_and_detection() {
    let xml = r#"<process id="p"><serviceTask id="t" implementation="webService" operationRef="op"/></process>"#;
    match parse_bpmn_xml(xml).unwrap().get_element("t") {
        Some(ProcessElement::ServiceTask(t)) => {
            assert_eq!(t.implementation, Some("webService".to_string()));
            assert_eq!(t.operation_ref, Some("op".to_string()));
        },
        _ => panic!("Expected a ServiceTask"),
    }
    assert_eq!(FormatDetector::detect("  <definitions/>").unwrap(), BpmnFormat::Xml);
    assert!(FormatDetector::detect("<x/>").is_err());
    assert_eq!(FormatDetector::detect("\n[1]").unwrap(), BpmnFormat::Json);
    assert!(FormatDetector::detect("plain text").is_err());
}

#[test]
fn parsers_and_error_messages() {
    let definition = XmlParser.parse(r#"<bpmn:process id="x"><bpmn:manualTask id="m"/></bpmn:process>"#).unwrap();
    assert_eq!(definition.id, "x");
    assert!(matches!(definition.get_element("m"), Some(ProcessElement::ManualTask(_))));
    assert_eq!(XmlParser.format(), BpmnFormat::Xml);
    assert_eq!(JsonParser.format(), BpmnFormat::Json);
    assert_eq!(
        DetectionError::UnableToDetect.message(),
        "Unable to detect format: input is empty or ambiguous"
    );
    let from_detection: ParseError = DetectionError::InvalidFormat("odd".to_string()).into();
    assert_eq!(from_detection.message(), "Format detection error: Invalid format: odd");
    assert_eq!(ParseError::UnsupportedFormat.message(), "Unsupported format");
    assert_eq!(SerializeError::Xml("bad".to_string()).message(), "XML serialize error: bad");
}
