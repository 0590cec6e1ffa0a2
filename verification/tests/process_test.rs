//! Process definitions built from their JSON form.

use bpmn_engine::json_value::JsonValue;
use bpmn_engine::model::json::{BpmnJsonProcess, BpmnJsonVariable};
use bpmn_engine::model::ProcessDefinition;

fn process(name: Option<&str>, variables: Vec<(String, BpmnJsonVariable)>) -> BpmnJsonProcess {
    BpmnJsonProcess {
        id: "process1".to_string(),
        name: name.map(|n| n.to_string()),
        process_type: "process".to_string(),
        is_executable: true,
        elements: Vec::new(),
        variables,
    }
}

#[test]
fn test_process_definition_basic() {
    let definition = ProcessDefinition::from_bpmn_json(process(Some("Test Process"), Vec::new())).unwrap();
    assert_eq!(definition.id, "process1");
    assert_eq!(definition.name, Some("Test Process".to_string()));
    assert!(definition.is_executable);
}

#[test]
fn test_process_definition_with_variables() {
    let var1 = BpmnJsonVariable {
        name: "var1".to_string(),
        variable_type: Some("string".to_string()),
        default_value: Some(JsonValue::String("test".to_string())),
    };
    let definition = ProcessDefinition::from_bpmn_json(process(None, vec![("var1".to_string(), var1)])).unwrap();
    assert_eq!(definition.variables.len(), 1);
    assert!(definition.variables.iter().any(|(k, _)| k == "var1"));
    let var = &definition.variables.iter().find(|(k, _)| k == "var1").unwrap().1;
    assert_eq!(var.name, "var1");
    assert_eq!(var.variable_type, Some("string".to_string()));
}

#[test]
fn later_variable_with_same_key_replaces_earlier() {
    let make = |t: &str| BpmnJsonVariable { name: "v".to_string(), variable_type: Some(t.to_string()), default_value: None };
    let definition = ProcessDefinition::from_bpmn_json(process(
        None,
        vec![("v".to_string(), make("a")), ("v".to_string(), make("b"))],
    ))
    .unwrap();
    assert_eq!(definition.variables.len(), 1);
    assert_eq!(definition.variables[0].1.variable_type, Some("b".to_string()));
}
