//! Writing process definitions as BPMN XML, and reading them back.

use bpmn_engine::engine::context::GatewayDirection;
use bpmn_engine::model::{
    parse_bpmn_xml, serialize_bpmn_xml, CallActivity, ConditionExpression, DataAssociation, ElementBase, EndEvent,
    EventDefinition, IntermediateCatchEvent, MultiInstanceLoopCharacteristics, ParallelGateway, ProcessDefinition,
    ProcessElement, ScriptTask, SequenceFlow,
};

const HEAD: &str = r#"<?xml version="1.0" encoding="UTF-8"?><bpmn2:definitions xmlns:bpmn2="http://www.omg.org/spec/BPMN/20100524/MODEL" xmlns:bpmndi="http://www.omg.org/spec/BPMN/20100524/DI" xmlns:dc="http://www.omg.org/spec/DD/20100524/DC" xmlns:di="http://www.omg.org/spec/DD/20100524/DI" id="Definitions" targetNamespace="http://bpmn.io/schema/bpmn"><bpmn2:process id="p" isExecutable="true">"#;

const TAIL: &str = "</bpmn2:process></bpmn2:definitions>";

fn base(id: &str) -> ElementBase {
    ElementBase { id: id.to_string(), name: None, documentation: None }
}

fn definition(elements: Vec<ProcessElement>, flows: Vec<SequenceFlow>) -> ProcessDefinition {
    ProcessDefinition {
        id: "p".to_string(),
        name: None,
        process_type: "process".to_string(),
        is_executable: true,
        elements,
        flows,
        variables: Vec::new(),
    }
}

fn written(elements: Vec<ProcessElement>, flows: Vec<SequenceFlow>) -> String {
    serialize_bpmn_xml(&definition(elements, flows)).unwrap()
}

fn assert_read_back(elements: Vec<ProcessElement>, flows: Vec<SequenceFlow>) {
    let d = definition(elements, flows);
    let read = parse_bpmn_xml(&serialize_bpmn_xml(&d).unwrap()).unwrap();
    assert_eq!(format!("{:?}", read), format!("{:?}", d));
}

fn event(id: &str, d: Option<EventDefinition>) -> ProcessElement {
    ProcessElement::IntermediateCatchEvent(IntermediateCatchEvent { base: base(id), event_definition: d })
}

const EVERY_KIND: &str = r#"<?xml version="1.0"?>
<bpmn:definitions xmlns:bpmn="http://www.omg.org/spec/BPMN/20100524/MODEL">
  <bpmn:process id="all" name="Every kind" isExecutable="false">
    <bpmn:startEvent id="start" name="Start"><bpmn:messageEventDefinition messageRef="m1"/></bpmn:startEvent>
    <bpmn:intermediateCatchEvent id="wait"><bpmn:timerEventDefinition><bpmn:timeDuration>PT5M</bpmn:timeDuration></bpmn:timerEventDefinition></bpmn:intermediateCatchEvent>
    <bpmn:intermediateThrowEvent id="raise"><bpmn:signalEventDefinition signalRef="s1"/></bpmn:intermediateThrowEvent>
    <bpmn:serviceTask id="svc" implementation="webService" operationRef="op">
      <bpmn:multiInstanceLoopCharacteristics isParallel="true" behavior="One">
        <bpmn:loopCardinality>3</bpmn:loopCardinality>
        <bpmn:completionCondition>done &gt; 1</bpmn:completionCondition>
      </bpmn:multiInstanceLoopCharacteristics>
    </bpmn:serviceTask>
    <bpmn:userTask id="usr" formKey="form"/>
    <bpmn:scriptTask id="scr" scriptFormat="javascript">
      <bpmn:documentation>Counts &amp; adds</bpmn:documentation>
      <bpmn:script>n = n + 1</bpmn:script>
    </bpmn:scriptTask>
    <bpmn:intermediateCatchEvent id="cond"><bpmn:conditionalEventDefinition><bpmn:condition language="simple">ready</bpmn:condition></bpmn:conditionalEventDefinition></bpmn:intermediateCatchEvent>
    <bpmn:intermediateThrowEvent id="comp"><bpmn:compensateEventDefinition activityRef="svc"/></bpmn:intermediateThrowEvent>
    <bpmn:intermediateThrowEvent id="jump"><bpmn:linkEventDefinition name="L"/></bpmn:intermediateThrowEvent>
    <bpmn:endEvent id="abort"><bpmn:cancelEventDefinition/></bpmn:endEvent>
    <bpmn:manualTask id="man"/>
    <bpmn:exclusiveGateway id="xor" default="f2"/>
    <bpmn:parallelGateway id="and" gatewayDirection="Diverging"/>
    <bpmn:inclusiveGateway id="or" default="f3"/>
    <bpmn:callActivity id="call" calledElement="sub" businessKey="bk">
      <bpmn:dataInputAssociation><bpmn:sourceRef>a</bpmn:sourceRef><bpmn:targetRef>b</bpmn:targetRef><bpmn:transformation>upper(a)</bpmn:transformation></bpmn:dataInputAssociation>
      <bpmn:dataOutputAssociation><bpmn:sourceRef>c</bpmn:sourceRef></bpmn:dataOutputAssociation>
    </bpmn:callActivity>
    <bpmn:dataObject id="obj" dataState="open"/>
    <bpmn:dataInput id="in"/>
    <bpmn:dataOutput id="out"/>
    <bpmn:dataObjectReference id="ref" dataObjectRef="obj"/>
    <bpmn:endEvent id="end"><bpmn:errorEventDefinition errorRef="e1"/></bpmn:endEvent>
    <bpmn:endEvent id="stop"><bpmn:terminateEventDefinition/></bpmn:endEvent>
    <bpmn:sequenceFlow id="f1" name="first" sourceRef="start" targetRef="xor"/>
    <bpmn:sequenceFlow id="f2" sourceRef="xor" targetRef="svc">
      <bpmn:conditionExpression language="simple">amount &lt; 5</bpmn:conditionExpression>
    </bpmn:sequenceFlow>
    <bpmn:sequenceFlow id="f3" sourceRef="or" targetRef="end"/>
  </bpmn:process>
</bpmn:definitions>"#;

#[test]
fn every_kind_is_written_and_read_back() {
    let first = parse_bpmn_xml(EVERY_KIND).unwrap();
    assert_eq!(first.elements.len(), 21);
    let text = serialize_bpmn_xml(&first).unwrap();
    let second = parse_bpmn_xml(&text).unwrap();
    assert_eq!(format!("{:?}", first), format!("{:?}", second));
    assert_eq!(serialize_bpmn_xml(&second).unwrap(), text);
    for tag in [
        "<bpmn2:intermediateCatchEvent id=\"wait\">",
        "<bpmn2:intermediateThrowEvent id=\"raise\">",
        "<bpmn2:scriptTask id=\"scr\" scriptFormat=\"javascript\">",
        "<bpmn2:parallelGateway id=\"and\" gatewayDirection=\"Diverging\"/>",
        "<bpmn2:manualTask id=\"man\"/>",
        "<bpmn2:inclusiveGateway id=\"or\" default=\"f3\"/>",
        "<bpmn2:callActivity id=\"call\" calledElement=\"sub\" businessKey=\"bk\">",
        "<bpmn2:dataObject id=\"obj\" dataState=\"open\"/>",
        "<bpmn2:dataInput id=\"in\"/>",
        "<bpmn2:dataOutput id=\"out\"/>",
        "<bpmn2:dataObjectReference id=\"ref\" dataObjectRef=\"obj\"/>",
        "<bpmn2:process id=\"all\" name=\"Every kind\" isExecutable=\"false\">",
    ] {
        assert!(text.contains(tag), "{} is missing from {}", tag, text);
    }
}

#[test]
fn conditions_are_unescaped_when_read_and_escaped_when_written() {
    let definition = parse_bpmn_xml(EVERY_KIND).unwrap();
    match definition.get_element("scr") {
        Some(ProcessElement::ScriptTask(t)) => {
            assert_eq!(t.base.documentation, Some("Counts & adds".to_string()));
            assert_eq!(t.script, Some("n = n + 1".to_string()));
        },
        _ => panic!("Expected a ScriptTask"),
    }
    match definition.get_element("cond") {
        Some(ProcessElement::IntermediateCatchEvent(e)) => match &e.event_definition {
            Some(EventDefinition::Conditional { condition: Some(c) }) => {
                assert_eq!(c.body, "ready");
                assert_eq!(c.language, Some("simple".to_string()));
            },
            _ => panic!("Expected a conditional event definition"),
        },
        _ => panic!("Expected an IntermediateCatchEvent"),
    }
    let condition = definition.get_flow("f2").unwrap().condition_expression.as_ref().unwrap();
    assert_eq!(condition.body, "amount < 5");
    let text = serialize_bpmn_xml(&definition).unwrap();
    let flow = [
        r#"<bpmn2:sequenceFlow id="f2" sourceRef="xor" targetRef="svc">"#,
        r#"<bpmn2:conditionExpression language="simple">amount &lt; 5</bpmn2:conditionExpression>"#,
        r#"</bpmn2:sequenceFlow>"#,
    ]
    .concat();
    assert!(text.contains(&flow));
    assert!(text.contains(r#"<bpmn2:sequenceFlow id="f1" name="first" sourceRef="start" targetRef="xor"/>"#));
}

#[test]
fn a_lone_script_task_is_written() {
    let task = ProcessElement::ScriptTask(ScriptTask {
        base: ElementBase { id: "t".to_string(), name: Some("Run".to_string()), documentation: Some("Adds".to_string()) },
        script_format: Some("javascript".to_string()),
        script: Some("x = 1 && y".to_string()),
        loop_characteristics: None,
    });
    let expected = [
        HEAD,
        r#"<bpmn2:scriptTask id="t" name="Run" scriptFormat="javascript">"#,
        r#"<bpmn2:documentation>Adds</bpmn2:documentation>"#,
        r#"<bpmn2:script>x = 1 &amp;&amp; y</bpmn2:script>"#,
        r#"</bpmn2:scriptTask>"#,
        TAIL,
    ]
    .concat();
    assert_eq!(written(vec![task.clone()], Vec::new()), expected);
    assert_read_back(vec![task], Vec::new());
}

#[test]
fn timers_are_written_as_durations_cycles_or_dates() {
    let timer = |t: &str| Some(EventDefinition::Timer { time_definition: Some(t.to_string()) });
    let text = written(
        vec![event("a", timer("PT5M")), event("b", timer("R3/PT1M")), event("c", timer("2024-01-01T00:00:00Z"))],
        Vec::new(),
    );
    let expected = [
        HEAD,
        r#"<bpmn2:intermediateCatchEvent id="a"><bpmn2:timerEventDefinition>"#,
        r#"<bpmn2:timeDuration>PT5M</bpmn2:timeDuration></bpmn2:timerEventDefinition></bpmn2:intermediateCatchEvent>"#,
        r#"<bpmn2:intermediateCatchEvent id="b"><bpmn2:timerEventDefinition>"#,
        r#"<bpmn2:timeCycle>R3/PT1M</bpmn2:timeCycle></bpmn2:timerEventDefinition></bpmn2:intermediateCatchEvent>"#,
        r#"<bpmn2:intermediateCatchEvent id="c"><bpmn2:timerEventDefinition>"#,
        r#"<bpmn2:timeDate>2024-01-01T00:00:00Z</bpmn2:timeDate></bpmn2:timerEventDefinition></bpmn2:intermediateCatchEvent>"#,
        TAIL,
    ]
    .concat();
    assert_eq!(text, expected);
    assert_read_back(
        vec![event("a", timer("PT5M")), event("b", timer("R3/PT1M")), event("c", timer("2024-01-01T00:00:00Z"))],
        Vec::new(),
    );
    let read = parse_bpmn_xml(&text).unwrap();
    match read.get_element("b") {
        Some(ProcessElement::IntermediateCatchEvent(e)) => assert!(matches!(
            &e.event_definition,
            Some(EventDefinition::Timer { time_definition: Some(t) }) if t == "R3/PT1M"
        )),
        _ => panic!("Expected an IntermediateCatchEvent"),
    }
}

#[test]
fn other_event_definitions_are_written() {
    let text = written(
        vec![
            event("a", Some(EventDefinition::Cancel)),
            event("b", Some(EventDefinition::Compensation { activity_ref: Some("t".to_string()) })),
            event("c", Some(EventDefinition::Link { name: Some("L".to_string()) })),
            event(
                "d",
                Some(EventDefinition::Conditional {
                    condition: Some(ConditionExpression { language: None, body: "x > 1".to_string() }),
                }),
            ),
            event("e", Some(EventDefinition::Escalation { escalation_ref: None })),
            event("f", Some(EventDefinition::Unspecified)),
            ProcessElement::EndEvent(EndEvent { base: base("g"), event_definition: Some(EventDefinition::Terminate) }),
        ],
        Vec::new(),
    );
    let expected = [
        HEAD,
        r#"<bpmn2:intermediateCatchEvent id="a"><bpmn2:cancelEventDefinition/></bpmn2:intermediateCatchEvent>"#,
        r#"<bpmn2:intermediateCatchEvent id="b"><bpmn2:compensateEventDefinition activityRef="t"/></bpmn2:intermediateCatchEvent>"#,
        r#"<bpmn2:intermediateCatchEvent id="c"><bpmn2:linkEventDefinition name="L"/></bpmn2:intermediateCatchEvent>"#,
        r#"<bpmn2:intermediateCatchEvent id="d"><bpmn2:conditionalEventDefinition>"#,
        r#"<bpmn2:condition>x &gt; 1</bpmn2:condition></bpmn2:conditionalEventDefinition></bpmn2:intermediateCatchEvent>"#,
        r#"<bpmn2:intermediateCatchEvent id="e"><bpmn2:escalationEventDefinition/></bpmn2:intermediateCatchEvent>"#,
        r#"<bpmn2:intermediateCatchEvent id="f"/>"#,
        r#"<bpmn2:endEvent id="g"><bpmn2:terminateEventDefinition/></bpmn2:endEvent>"#,
        TAIL,
    ]
    .concat();
    assert_eq!(text, expected);
    let read = parse_bpmn_xml(&text).unwrap();
    match read.get_element("f") {
        Some(ProcessElement::IntermediateCatchEvent(e)) => assert!(e.event_definition.is_none()),
        _ => panic!("Expected an IntermediateCatchEvent"),
    }
    assert_read_back(
        vec![
            event("a", Some(EventDefinition::Cancel)),
            event("b", Some(EventDefinition::Compensation { activity_ref: Some("t".to_string()) })),
            event("c", Some(EventDefinition::Link { name: None })),
            event(
                "d",
                Some(EventDefinition::Conditional {
                    condition: Some(ConditionExpression { language: Some("js".to_string()), body: "x > 1".to_string() }),
                }),
            ),
            event("e", Some(EventDefinition::Conditional { condition: None })),
        ],
        Vec::new(),
    );
}

#[test]
fn loops_directions_and_associations_are_written() {
    let task = ProcessElement::ScriptTask(ScriptTask {
        base: base("t"),
        script_format: None,
        script: None,
        loop_characteristics: Some(MultiInstanceLoopCharacteristics {
            is_parallel: false,
            loop_cardinality: Some(-12),
            completion_condition: None,
            behavior: Some("All".to_string()),
        }),
    });
    let join = ProcessElement::ParallelGateway(ParallelGateway {
        base: base("j"),
        default_flow: None,
        gateway_direction: GatewayDirection::Converging,
    });
    let call = ProcessElement::CallActivity(CallActivity {
        base: base("c"),
        called_element: None,
        business_key: None,
        data_input_associations: vec![DataAssociation {
            source_ref: None,
            target_ref: Some("x".to_string()),
            transformation: Some("upper".to_string()),
        }],
        data_output_associations: vec![DataAssociation { source_ref: None, target_ref: None, transformation: None }],
    });
    let expected = [
        HEAD,
        r#"<bpmn2:scriptTask id="t"><bpmn2:multiInstanceLoopCharacteristics isParallel="false" behavior="All">"#,
        r#"<bpmn2:loopCardinality>-12</bpmn2:loopCardinality></bpmn2:multiInstanceLoopCharacteristics></bpmn2:scriptTask>"#,
        r#"<bpmn2:parallelGateway id="j" gatewayDirection="Converging"/>"#,
        r#"<bpmn2:callActivity id="c"><bpmn2:dataInputAssociation><bpmn2:targetRef>x</bpmn2:targetRef>"#,
        r#"<bpmn2:transformation>upper</bpmn2:transformation></bpmn2:dataInputAssociation>"#,
        r#"<bpmn2:dataOutputAssociation/></bpmn2:callActivity>"#,
        TAIL,
    ]
    .concat();
    assert_eq!(written(vec![task.clone(), join.clone(), call.clone()], Vec::new()), expected);
    let flow = SequenceFlow {
        id: "f".to_string(),
        name: Some("to join".to_string()),
        source_ref: "t".to_string(),
        target_ref: "j".to_string(),
        condition_expression: Some(ConditionExpression { language: None, body: "a < b && c".to_string() }),
    };
    assert_read_back(vec![task, join, call], vec![flow]);
}

#[test]
fn attribute_values_keep_their_entity_references() {
    let xml = r#"<process id="p" name="A &amp; B"><startEvent id="s" name="&lt;go&gt;"/></process>"#;
    let definition = parse_bpmn_xml(xml).unwrap();
    assert_eq!(definition.name, Some("A &amp; B".to_string()));
    match &definition.elements[0] {
        ProcessElement::StartEvent(e) => assert_eq!(e.base.name, Some("&lt;go&gt;".to_string())),
        _ => panic!("Expected a StartEvent"),
    }
}

#[test]
fn texts_are_unescaped_as_quick_xml_does() {
    let xml = r#"<process id="p">
      <sequenceFlow id="a" sourceRef="s" targetRef="t"><conditionExpression>x &#60; 5 &amp;&amp; y</conditionExpression></sequenceFlow>
      <sequenceFlow id="b" sourceRef="s" targetRef="t"><conditionExpression>x &unknown; y</conditionExpression></sequenceFlow>
      <sequenceFlow id="c" sourceRef="s" targetRef="t"><conditionExpression><![CDATA[x < 5 &amp; y]]></conditionExpression></sequenceFlow>
    </process>"#;
    let definition = parse_bpmn_xml(xml).unwrap();
    let body = |id: &str| definition.get_flow(id).unwrap().condition_expression.as_ref().unwrap().body.clone();
    assert_eq!(body("a"), "x < 5 && y");
    assert_eq!(body("b"), "x &unknown; y");
    assert_eq!(body("c"), "x < 5 &amp; y");
}

#[test]
fn tags_after_a_closed_element_are_not_nested_in_it() {
    let xml = r#"<process id="p">
      <startEvent id="s"/>
      <boundaryEvent id="b"><timerEventDefinition><timeDuration>PT1M</timeDuration></timerEventDefinition></boundaryEvent>
      <textAnnotation id="n"><documentation>note</documentation></textAnnotation>
      <userTask id="u"><extensionElements><documentation>inner</documentation></extensionElements></userTask>
      <messageEventDefinition messageRef="m"/>
    </process>"#;
    let definition = parse_bpmn_xml(xml).unwrap();
    match definition.get_element("s") {
        Some(ProcessElement::StartEvent(e)) => {
            assert!(e.event_definition.is_none());
            assert!(e.base.documentation.is_none());
        },
        _ => panic!("Expected a StartEvent"),
    }
    match definition.get_element("u") {
        Some(ProcessElement::UserTask(t)) => assert_eq!(t.base.documentation, Some("inner".to_string())),
        _ => panic!("Expected a UserTask"),
    }
}
