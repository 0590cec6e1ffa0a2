//! BPMN 2.0 JSON format: the shape of a process definition as its JSON
//! text holds it. Elements carry a `type` tag; names are camelCase.

use vstd::prelude::*;
use crate::engine::context::GatewayDirection;
use crate::json_value::{JsonData, JsonValue};

verus! {

/// A complete BPMN process definition in JSON form.
#[derive(Debug)]
pub struct BpmnJsonProcess {
    /// Process ID
    pub id: String,
    /// Process name
    pub name: Option<String>,
    /// Process type (`"process"` when the text has none)
    pub process_type: String,
    /// Is executable (`true` when the text has none)
    pub is_executable: bool,
    /// Process elements (tasks, gateways, events, flows)
    pub elements: Vec<BpmnJsonElement>,
    /// Process variables, by key
    pub variables: Vec<(String, BpmnJsonVariable)>,
}

/// The process type a definition has when its text names none.
pub fn default_process_type() -> (r: String)
    ensures
        r@ == "process"@,
{
    "process".to_owned()
}

/// Whether a definition is executable when its text does not say.
pub fn default_true() -> (r: bool)
    ensures
        r,
{
    true
}

/// Any BPMN element (task, gateway, event, flow, data).
#[derive(Debug)]
pub enum BpmnJsonElement {
    /// Start Event
    StartEvent(BpmnJsonStartEvent),
    /// End Event
    EndEvent(BpmnJsonEndEvent),
    /// Intermediate Catch Event
    IntermediateCatchEvent(BpmnJsonIntermediateCatchEvent),
    /// Intermediate Throw Event
    IntermediateThrowEvent(BpmnJsonIntermediateThrowEvent),
    /// Service Task
    ServiceTask(BpmnJsonServiceTask),
    /// User Task
    UserTask(BpmnJsonUserTask),
    /// Script Task
    ScriptTask(BpmnJsonScriptTask),
    /// Manual Task
    ManualTask(BpmnJsonManualTask),
    /// Exclusive Gateway
    ExclusiveGateway(BpmnJsonExclusiveGateway),
    /// Parallel Gateway
    ParallelGateway(BpmnJsonParallelGateway),
    /// Inclusive Gateway
    InclusiveGateway(BpmnJsonInclusiveGateway),
    /// Data Object
    DataObject(BpmnJsonDataObject),
    /// Data Input
    DataInput(BpmnJsonDataInput),
    /// Data Output
    DataOutput(BpmnJsonDataOutput),
    /// Data Object Reference
    DataObjectReference(BpmnJsonDataObjectReference),
    /// Call Activity
    CallActivity(BpmnJsonCallActivity),
    /// Sequence Flow
    SequenceFlow(BpmnJsonSequenceFlow),
}

/// Base properties of every BPMN element.
#[derive(Debug)]
pub struct BpmnJsonElementBase {
    /// Element ID
    pub id: String,
    /// Element name
    pub name: Option<String>,
    /// Documentation
    pub documentation: Option<String>,
}

/// Start Event
#[derive(Debug)]
pub struct BpmnJsonStartEvent {
    pub base: BpmnJsonElementBase,
    /// Event definition (message, timer, signal, ...)
    pub event_definition: Option<BpmnJsonEventDefinition>,
}

/// End Event
#[derive(Debug)]
pub struct BpmnJsonEndEvent {
    pub base: BpmnJsonElementBase,
    /// Event definition
    pub event_definition: Option<BpmnJsonEventDefinition>,
}

/// Intermediate Catch Event
#[derive(Debug)]
pub struct BpmnJsonIntermediateCatchEvent {
    pub base: BpmnJsonElementBase,
    /// Event definition
    pub event_definition: Option<BpmnJsonEventDefinition>,
}

/// Intermediate Throw Event
#[derive(Debug)]
pub struct BpmnJsonIntermediateThrowEvent {
    pub base: BpmnJsonElementBase,
    /// Event definition
    pub event_definition: Option<BpmnJsonEventDefinition>,
}

/// Service Task
#[derive(Debug)]
pub struct BpmnJsonServiceTask {
    pub base: BpmnJsonElementBase,
    /// Implementation (e.g. "webService", "expression")
    pub implementation: Option<String>,
    /// Operation reference
    pub operation_ref: Option<String>,
    /// Input/output mappings
    pub io_mapping: BpmnJsonIoMapping,
    /// Multi-instance loop characteristics
    pub loop_characteristics: Option<BpmnJsonMultiInstanceLoopCharacteristics>,
}

/// User Task
#[derive(Debug)]
pub struct BpmnJsonUserTask {
    pub base: BpmnJsonElementBase,
    /// Assignment
    pub assignment: Option<BpmnJsonAssignment>,
    /// Form key
    pub form_key: Option<String>,
    /// Multi-instance loop characteristics
    pub loop_characteristics: Option<BpmnJsonMultiInstanceLoopCharacteristics>,
}

/// Script Task
#[derive(Debug)]
pub struct BpmnJsonScriptTask {
    pub base: BpmnJsonElementBase,
    /// Script format (e.g. "javascript", "groovy")
    pub script_format: Option<String>,
    /// Script content
    pub script: Option<String>,
    /// Multi-instance loop characteristics
    pub loop_characteristics: Option<BpmnJsonMultiInstanceLoopCharacteristics>,
}

/// Manual Task
#[derive(Debug)]
pub struct BpmnJsonManualTask {
    pub base: BpmnJsonElementBase,
}

/// Exclusive Gateway
#[derive(Debug)]
pub struct BpmnJsonExclusiveGateway {
    pub base: BpmnJsonElementBase,
    /// Default flow ID
    pub default_flow: Option<String>,
}

/// Parallel Gateway
#[derive(Debug)]
pub struct BpmnJsonParallelGateway {
    pub base: BpmnJsonElementBase,
    /// Default flow ID
    pub default_flow: Option<String>,
    /// Gateway direction
    pub gateway_direction: Option<GatewayDirection>,
}

/// Inclusive Gateway
#[derive(Debug)]
pub struct BpmnJsonInclusiveGateway {
    pub base: BpmnJsonElementBase,
    /// Default flow ID
    pub default_flow: Option<String>,
}

/// Data Object
#[derive(Debug)]
pub struct BpmnJsonDataObject {
    pub base: BpmnJsonElementBase,
    /// Data state
    pub data_state: Option<String>,
}

/// Data Input
#[derive(Debug)]
pub struct BpmnJsonDataInput {
    pub base: BpmnJsonElementBase,
    /// Input set reference
    pub input_set: Option<String>,
}

/// Data Output
#[derive(Debug)]
pub struct BpmnJsonDataOutput {
    pub base: BpmnJsonElementBase,
    /// Output set reference
    pub output_set: Option<String>,
}

/// Data Object Reference
#[derive(Debug)]
pub struct BpmnJsonDataObjectReference {
    pub base: BpmnJsonElementBase,
    /// Data object reference
    pub data_object_ref: Option<String>,
}

/// Call Activity
#[derive(Debug)]
pub struct BpmnJsonCallActivity {
    pub base: BpmnJsonElementBase,
    /// Called element ID (reference to an external process)
    pub called_element: Option<String>,
    /// Business key expression
    pub business_key: Option<String>,
    /// Input data associations
    pub data_input_associations: Vec<BpmnJsonDataAssociation>,
    /// Output data associations
    pub data_output_associations: Vec<BpmnJsonDataAssociation>,
}

/// Data Association
#[derive(Debug)]
pub struct BpmnJsonDataAssociation {
    /// Source reference
    pub source_ref: Option<String>,
    /// Target reference
    pub target_ref: Option<String>,
    /// Transformation expression
    pub transformation: Option<String>,
}

/// Sequence Flow
#[derive(Debug)]
pub struct BpmnJsonSequenceFlow {
    pub base: BpmnJsonElementBase,
    /// Source element ID
    pub source_ref: String,
    /// Target element ID
    pub target_ref: String,
    /// Condition expression
    pub condition_expression: Option<BpmnJsonConditionExpression>,
}

/// Event Definition
#[derive(Debug)]
pub enum BpmnJsonEventDefinition {
    /// Message Event Definition
    Message { message_ref: Option<String> },
    /// Timer Event Definition (e.g. "PT1H", "R/PT1H")
    Timer { time_definition: Option<String> },
    /// Signal Event Definition
    Signal { signal_ref: Option<String> },
    /// Error Event Definition
    Error { error_ref: Option<String> },
    /// Escalation Event Definition
    Escalation { escalation_ref: Option<String> },
    /// Cancel Event Definition
    Cancel,
    /// Compensation Event Definition
    Compensation { activity_ref: Option<String> },
    /// Conditional Event Definition
    Conditional { condition: Option<BpmnJsonConditionExpression> },
    /// Link Event Definition
    Link { name: Option<String> },
    /// Terminate Event Definition
    Terminate,
    /// No specific event definition (the JSON tag `none`)
    Unspecified,
}

/// Condition Expression
#[derive(Debug)]
pub struct BpmnJsonConditionExpression {
    /// Expression language (e.g. "javascript", "groovy")
    pub language: Option<String>,
    /// Expression body
    pub body: String,
}

/// Input/Output Mapping
#[derive(Debug)]
pub struct BpmnJsonIoMapping {
    /// Input parameters
    pub input_parameters: Vec<BpmnJsonIoParameter>,
    /// Output parameters
    pub output_parameters: Vec<BpmnJsonIoParameter>,
}

impl Default for BpmnJsonIoMapping {
    fn default() -> (r: Self)
        ensures
            r@.input_parameters.len() == 0,
            r@.output_parameters.len() == 0,
    {
        BpmnJsonIoMapping { input_parameters: Vec::new(), output_parameters: Vec::new() }
    }
}

/// Input/Output Parameter
#[derive(Debug)]
pub struct BpmnJsonIoParameter {
    /// Parameter name
    pub name: String,
    /// Parameter source
    pub source: Option<String>,
    /// Parameter target
    pub target: Option<String>,
    /// Parameter value/expression
    pub value: Option<String>,
}

/// Assignment
#[derive(Debug)]
pub struct BpmnJsonAssignment {
    /// Assignment type (e.g. "assignee", "candidateUsers", "candidateGroups")
    pub assignment_type: String,
    /// Assignment value
    pub value: String,
}

/// Variable Definition
#[derive(Debug)]
pub struct BpmnJsonVariable {
    /// Variable name
    pub name: String,
    /// Variable type
    pub variable_type: Option<String>,
    /// Default value
    pub default_value: Option<JsonValue>,
}

/// Multi-Instance Loop Characteristics
#[derive(Debug)]
pub struct BpmnJsonMultiInstanceLoopCharacteristics {
    /// Sequential (false) or parallel (true) execution
    pub is_parallel: Option<bool>,
    /// Number of instances to create
    pub loop_cardinality: Option<i32>,
    /// Completion condition expression
    pub completion_condition: Option<String>,
    /// Behavior when one instance completes
    pub behavior: Option<String>,
}

/// The content of an input/output mapping.
pub struct BpmnJsonIoMappingView {
    pub input_parameters: Seq<BpmnJsonIoParameter>,
    pub output_parameters: Seq<BpmnJsonIoParameter>,
}

impl View for BpmnJsonIoMapping {
    type V = BpmnJsonIoMappingView;

    open spec fn view(&self) -> BpmnJsonIoMappingView {
        BpmnJsonIoMappingView {
            input_parameters: self.input_parameters@,
            output_parameters: self.output_parameters@,
        }
    }
}

/// The content of a service task.
pub struct BpmnJsonServiceTaskView {
    pub base: BpmnJsonElementBase,
    pub implementation: Option<String>,
    pub operation_ref: Option<String>,
    pub io_mapping: BpmnJsonIoMappingView,
    pub loop_characteristics: Option<BpmnJsonMultiInstanceLoopCharacteristics>,
}

impl View for BpmnJsonServiceTask {
    type V = BpmnJsonServiceTaskView;

    open spec fn view(&self) -> BpmnJsonServiceTaskView {
        BpmnJsonServiceTaskView {
            base: self.base,
            implementation: self.implementation,
            operation_ref: self.operation_ref,
            io_mapping: self.io_mapping@,
            loop_characteristics: self.loop_characteristics,
        }
    }
}

/// The content of a call activity.
pub struct BpmnJsonCallActivityView {
    pub base: BpmnJsonElementBase,
    pub called_element: Option<String>,
    pub business_key: Option<String>,
    pub data_input_associations: Seq<BpmnJsonDataAssociation>,
    pub data_output_associations: Seq<BpmnJsonDataAssociation>,
}

impl View for BpmnJsonCallActivity {
    type V = BpmnJsonCallActivityView;

    open spec fn view(&self) -> BpmnJsonCallActivityView {
        BpmnJsonCallActivityView {
            base: self.base,
            called_element: self.called_element,
            business_key: self.business_key,
            data_input_associations: self.data_input_associations@,
            data_output_associations: self.data_output_associations@,
        }
    }
}

/// The content of a JSON element.
pub enum BpmnJsonElementView {
    StartEvent(BpmnJsonStartEvent),
    EndEvent(BpmnJsonEndEvent),
    IntermediateCatchEvent(BpmnJsonIntermediateCatchEvent),
    IntermediateThrowEvent(BpmnJsonIntermediateThrowEvent),
    ServiceTask(BpmnJsonServiceTaskView),
    UserTask(BpmnJsonUserTask),
    ScriptTask(BpmnJsonScriptTask),
    ManualTask(BpmnJsonManualTask),
    ExclusiveGateway(BpmnJsonExclusiveGateway),
    ParallelGateway(BpmnJsonParallelGateway),
    InclusiveGateway(BpmnJsonInclusiveGateway),
    DataObject(BpmnJsonDataObject),
    DataInput(BpmnJsonDataInput),
    DataOutput(BpmnJsonDataOutput),
    DataObjectReference(BpmnJsonDataObjectReference),
    CallActivity(BpmnJsonCallActivityView),
    SequenceFlow(BpmnJsonSequenceFlow),
}

impl View for BpmnJsonElement {
    type V = BpmnJsonElementView;

    open spec fn view(&self) -> BpmnJsonElementView {
        match *self {
            BpmnJsonElement::StartEvent(e) => BpmnJsonElementView::StartEvent(e),
            BpmnJsonElement::EndEvent(e) => BpmnJsonElementView::EndEvent(e),
            BpmnJsonElement::IntermediateCatchEvent(e) => BpmnJsonElementView::IntermediateCatchEvent(e),
            BpmnJsonElement::IntermediateThrowEvent(e) => BpmnJsonElementView::IntermediateThrowEvent(e),
            BpmnJsonElement::ServiceTask(e) => BpmnJsonElementView::ServiceTask(e@),
            BpmnJsonElement::UserTask(e) => BpmnJsonElementView::UserTask(e),
            BpmnJsonElement::ScriptTask(e) => BpmnJsonElementView::ScriptTask(e),
            BpmnJsonElement::ManualTask(e) => BpmnJsonElementView::ManualTask(e),
            BpmnJsonElement::ExclusiveGateway(e) => BpmnJsonElementView::ExclusiveGateway(e),
            BpmnJsonElement::ParallelGateway(e) => BpmnJsonElementView::ParallelGateway(e),
            BpmnJsonElement::InclusiveGateway(e) => BpmnJsonElementView::InclusiveGateway(e),
            BpmnJsonElement::DataObject(e) => BpmnJsonElementView::DataObject(e),
            BpmnJsonElement::DataInput(e) => BpmnJsonElementView::DataInput(e),
            BpmnJsonElement::DataOutput(e) => BpmnJsonElementView::DataOutput(e),
            BpmnJsonElement::DataObjectReference(e) => BpmnJsonElementView::DataObjectReference(e),
            BpmnJsonElement::CallActivity(e) => BpmnJsonElementView::CallActivity(e@),
            BpmnJsonElement::SequenceFlow(e) => BpmnJsonElementView::SequenceFlow(e),
        }
    }
}

/// The content of a variable definition.
pub struct BpmnJsonVariableView {
    pub name: String,
    pub variable_type: Option<String>,
    pub default_value: Option<JsonData>,
}

/// The content of an optional JSON value.
pub open spec fn opt_json_data(v: Option<JsonValue>) -> Option<JsonData> {
    match v {
        Some(x) => Some(x@),
        None => None,
    }
}

impl View for BpmnJsonVariable {
    type V = BpmnJsonVariableView;

    open spec fn view(&self) -> BpmnJsonVariableView {
        BpmnJsonVariableView {
            name: self.name,
            variable_type: self.variable_type,
            default_value: opt_json_data(self.default_value),
        }
    }
}

/// The content of a process definition in JSON form.
pub struct BpmnJsonProcessView {
    pub id: String,
    pub name: Option<String>,
    pub process_type: String,
    pub is_executable: bool,
    pub elements: Seq<BpmnJsonElementView>,
    pub variables: Seq<(String, BpmnJsonVariableView)>,
}

impl View for BpmnJsonProcess {
    type V = BpmnJsonProcessView;

    open spec fn view(&self) -> BpmnJsonProcessView {
        BpmnJsonProcessView {
            id: self.id,
            name: self.name,
            process_type: self.process_type,
            is_executable: self.is_executable,
            elements: self.elements@.map_values(|e: BpmnJsonElement| e@),
            variables: self.variables@.map_values(|p: (String, BpmnJsonVariable)| (p.0, p.1@)),
        }
    }
}

} // verus!
