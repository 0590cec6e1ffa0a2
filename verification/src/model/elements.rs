//! BPMN model elements: the internal representation of a process
//! definition, and its conversion from and to the JSON form.

use vstd::prelude::*;
use crate::engine::context::GatewayDirection;
use crate::json_value::{clone_json, JsonData, JsonValue};
use crate::model::format::{ParseError, SerializeError};
use crate::model::xml::{definition_is, parse_bpmn_xml, xml_result};
use crate::model::xml_write::{serialize_bpmn_xml, serialized};
use crate::model::xml_read::xml_events;
use crate::lists::{lemma_filter_push, lemma_first_match, first_match, lemma_first_match_at, lemma_map_push, lemma_take_next, lemma_first_match_none, lookup, same_key, upsert};
use crate::text::str_eq;
use crate::model::json::{
    opt_json_data, BpmnJsonAssignment, BpmnJsonCallActivity, BpmnJsonCallActivityView,
    BpmnJsonConditionExpression, BpmnJsonDataAssociation, BpmnJsonDataInput, BpmnJsonDataObject,
    BpmnJsonDataObjectReference, BpmnJsonDataOutput, BpmnJsonElement, BpmnJsonElementBase, BpmnJsonElementView, BpmnJsonEndEvent,
    BpmnJsonEventDefinition, BpmnJsonExclusiveGateway, BpmnJsonInclusiveGateway,
    BpmnJsonIntermediateCatchEvent, BpmnJsonIntermediateThrowEvent, BpmnJsonIoMapping,
    BpmnJsonIoMappingView, BpmnJsonIoParameter, BpmnJsonManualTask,
    BpmnJsonMultiInstanceLoopCharacteristics, BpmnJsonParallelGateway, BpmnJsonScriptTask,
    BpmnJsonSequenceFlow, BpmnJsonServiceTask, BpmnJsonServiceTaskView, BpmnJsonStartEvent,
    BpmnJsonProcess, BpmnJsonProcessView, BpmnJsonUserTask, BpmnJsonVariable, BpmnJsonVariableView,
};

verus! {

/// A copy of an optional string.
pub fn clone_opt_string(o: &Option<String>) -> (r: Option<String>)
    ensures
        r == *o,
{
    match o {
        Some(s) => Some(s.clone()),
        None => None,
    }
}

/// Base element properties.
#[derive(Debug)]
pub struct ElementBase {
    pub id: String,
    pub name: Option<String>,
    pub documentation: Option<String>,
}

impl Clone for ElementBase {
    fn clone(&self) -> (r: Self)
        ensures
            r == *self,
    {
        ElementBase {
            id: self.id.clone(),
            name: clone_opt_string(&self.name),
            documentation: clone_opt_string(&self.documentation),
        }
    }
}

impl ElementBase {
    /// The element base that `base` describes.
    pub open spec fn spec_from_json(base: BpmnJsonElementBase) -> Self {
        ElementBase { id: base.id, name: base.name, documentation: base.documentation }
    }

    /// The JSON form of this element base.
    pub open spec fn spec_to_json(self) -> BpmnJsonElementBase {
        BpmnJsonElementBase { id: self.id, name: self.name, documentation: self.documentation }
    }

    pub fn from_json(base: BpmnJsonElementBase) -> (r: Self)
        ensures
            r == Self::spec_from_json(base),
    {
        Self { id: base.id, name: base.name, documentation: base.documentation }
    }

    /// The JSON form of this element base.
    pub fn to_json(&self) -> (r: BpmnJsonElementBase)
        ensures
            r == self.spec_to_json(),
    {
        BpmnJsonElementBase {
            id: self.id.clone(),
            name: clone_opt_string(&self.name),
            documentation: clone_opt_string(&self.documentation),
        }
    }
}

/// Input/Output Parameter
#[derive(Debug)]
pub struct IoParameter {
    pub name: String,
    pub source: Option<String>,
    pub target: Option<String>,
    pub value: Option<String>,
}

impl Clone for IoParameter {
    fn clone(&self) -> (r: Self)
        ensures
            r == *self,
    {
        IoParameter {
            name: self.name.clone(),
            source: clone_opt_string(&self.source),
            target: clone_opt_string(&self.target),
            value: clone_opt_string(&self.value),
        }
    }
}

impl IoParameter {
    pub open spec fn spec_from_json(json: BpmnJsonIoParameter) -> Self {
        IoParameter { name: json.name, source: json.source, target: json.target, value: json.value }
    }

    pub open spec fn spec_to_json(self) -> BpmnJsonIoParameter {
        BpmnJsonIoParameter { name: self.name, source: self.source, target: self.target, value: self.value }
    }

    pub fn from_json(json: BpmnJsonIoParameter) -> (r: Self)
        ensures
            r == Self::spec_from_json(json),
    {
        Self { name: json.name, source: json.source, target: json.target, value: json.value }
    }

    pub fn to_json(&self) -> (r: BpmnJsonIoParameter)
        ensures
            r == self.spec_to_json(),
    {
        BpmnJsonIoParameter {
            name: self.name.clone(),
            source: clone_opt_string(&self.source),
            target: clone_opt_string(&self.target),
            value: clone_opt_string(&self.value),
        }
    }
}

/// Parameters converted from their JSON form, in order.
pub fn io_parameters_from_json(v: Vec<BpmnJsonIoParameter>) -> (r: Vec<IoParameter>)
    ensures
        r@ == v@.map_values(|p: BpmnJsonIoParameter| IoParameter::spec_from_json(p)),
{
    let ghost orig = v@;
    let mut r: Vec<IoParameter> = Vec::new();
    for p in it: v
        invariant
            it.seq() == orig,
            r@ == orig.take(it.index() as int).map_values(|p: BpmnJsonIoParameter| IoParameter::spec_from_json(p)),
    {
        assert(orig.take(it.index() + 1) == orig.take(it.index() as int).push(p));
        r.push(IoParameter::from_json(p));
    }
    assert(orig.take(orig.len() as int) == orig);
    r
}

/// Parameters in JSON form, in order.
pub fn io_parameters_to_json(v: &Vec<IoParameter>) -> (r: Vec<BpmnJsonIoParameter>)
    ensures
        r@ == v@.map_values(|p: IoParameter| p.spec_to_json()),
{
    let mut r: Vec<BpmnJsonIoParameter> = Vec::new();
    let mut i: usize = 0;
    while i < v.len()
        invariant
            i <= v.len(),
            r@ == v@.take(i as int).map_values(|p: IoParameter| p.spec_to_json()),
        decreases v.len() - i,
    {
        r.push(v[i].to_json());
        assert(v@.take(i + 1) == v@.take(i as int).push(v@[i as int]));
        i = i + 1;
    }
    assert(v@.take(v.len() as int) == v@);
    r
}

/// A copy of `v`.
pub fn clone_io_parameters(v: &Vec<IoParameter>) -> (r: Vec<IoParameter>)
    ensures
        r@ == v@,
{
    let mut r: Vec<IoParameter> = Vec::new();
    let mut i: usize = 0;
    while i < v.len()
        invariant
            i <= v.len(),
            r@ == v@.take(i as int),
        decreases v.len() - i,
    {
        r.push(v[i].clone());
        assert(v@.take(i + 1) == v@.take(i as int).push(v@[i as int]));
        i = i + 1;
    }
    assert(v@.take(v.len() as int) == v@);
    r
}

/// Input/Output Mapping
#[derive(Debug)]
pub struct IoMapping {
    pub input_parameters: Vec<IoParameter>,
    pub output_parameters: Vec<IoParameter>,
}

/// The content of an input/output mapping.
pub struct IoMappingView {
    pub input_parameters: Seq<IoParameter>,
    pub output_parameters: Seq<IoParameter>,
}

impl View for IoMapping {
    type V = IoMappingView;

    open spec fn view(&self) -> IoMappingView {
        IoMappingView { input_parameters: self.input_parameters@, output_parameters: self.output_parameters@ }
    }
}

impl Clone for IoMapping {
    fn clone(&self) -> (r: Self)
        ensures
            r@ == self@,
    {
        IoMapping {
            input_parameters: clone_io_parameters(&self.input_parameters),
            output_parameters: clone_io_parameters(&self.output_parameters),
        }
    }
}

impl Default for IoMapping {
    fn default() -> (r: Self)
        ensures
            r@.input_parameters.len() == 0,
            r@.output_parameters.len() == 0,
    {
        IoMapping { input_parameters: Vec::new(), output_parameters: Vec::new() }
    }
}

/// The mapping that `json` describes.
pub open spec fn io_mapping_from_json(json: BpmnJsonIoMappingView) -> IoMappingView {
    IoMappingView {
        input_parameters: json.input_parameters.map_values(|p: BpmnJsonIoParameter| IoParameter::spec_from_json(p)),
        output_parameters: json.output_parameters.map_values(|p: BpmnJsonIoParameter| IoParameter::spec_from_json(p)),
    }
}

/// The JSON form of mapping `m`.
pub open spec fn io_mapping_to_json(m: IoMappingView) -> BpmnJsonIoMappingView {
    BpmnJsonIoMappingView {
        input_parameters: m.input_parameters.map_values(|p: IoParameter| p.spec_to_json()),
        output_parameters: m.output_parameters.map_values(|p: IoParameter| p.spec_to_json()),
    }
}

impl IoMapping {
    pub fn from_json(json: BpmnJsonIoMapping) -> (r: Self)
        ensures
            r@ == io_mapping_from_json(json@),
    {
        Self {
            input_parameters: io_parameters_from_json(json.input_parameters),
            output_parameters: io_parameters_from_json(json.output_parameters),
        }
    }

    pub fn to_json(&self) -> (r: BpmnJsonIoMapping)
        ensures
            r@ == io_mapping_to_json(self@),
    {
        BpmnJsonIoMapping {
            input_parameters: io_parameters_to_json(&self.input_parameters),
            output_parameters: io_parameters_to_json(&self.output_parameters),
        }
    }
}

/// Condition Expression
#[derive(Debug)]
pub struct ConditionExpression {
    pub language: Option<String>,
    pub body: String,
}

impl Clone for ConditionExpression {
    fn clone(&self) -> (r: Self)
        ensures
            r == *self,
    {
        ConditionExpression { language: clone_opt_string(&self.language), body: self.body.clone() }
    }
}

impl ConditionExpression {
    pub open spec fn spec_from_json(json: BpmnJsonConditionExpression) -> Self {
        ConditionExpression { language: json.language, body: json.body }
    }

    pub open spec fn spec_to_json(self) -> BpmnJsonConditionExpression {
        BpmnJsonConditionExpression { language: self.language, body: self.body }
    }

    pub fn from_json(json: BpmnJsonConditionExpression) -> (r: Self)
        ensures
            r == Self::spec_from_json(json),
    {
        Self { language: json.language, body: json.body }
    }

    pub fn to_json(&self) -> (r: BpmnJsonConditionExpression)
        ensures
            r == self.spec_to_json(),
    {
        BpmnJsonConditionExpression { language: clone_opt_string(&self.language), body: self.body.clone() }
    }
}

pub open spec fn opt_condition_from_json(o: Option<BpmnJsonConditionExpression>) -> Option<ConditionExpression> {
    match o {
        Some(c) => Some(ConditionExpression::spec_from_json(c)),
        None => None,
    }
}

pub open spec fn opt_condition_to_json(o: Option<ConditionExpression>) -> Option<BpmnJsonConditionExpression> {
    match o {
        Some(c) => Some(c.spec_to_json()),
        None => None,
    }
}

fn condition_from_json_opt(o: Option<BpmnJsonConditionExpression>) -> (r: Option<ConditionExpression>)
    ensures
        r == opt_condition_from_json(o),
{
    match o {
        Some(c) => Some(ConditionExpression::from_json(c)),
        None => None,
    }
}

fn condition_to_json_opt(o: &Option<ConditionExpression>) -> (r: Option<BpmnJsonConditionExpression>)
    ensures
        r == opt_condition_to_json(*o),
{
    match o {
        Some(c) => Some(c.to_json()),
        None => None,
    }
}

fn clone_opt_condition(o: &Option<ConditionExpression>) -> (r: Option<ConditionExpression>)
    ensures
        r == *o,
{
    match o {
        Some(c) => Some(c.clone()),
        None => None,
    }
}

/// Event Definition
#[derive(Debug)]
pub enum EventDefinition {
    Message { message_ref: Option<String> },
    Timer { time_definition: Option<String> },
    Signal { signal_ref: Option<String> },
    Error { error_ref: Option<String> },
    Escalation { escalation_ref: Option<String> },
    Cancel,
    Compensation { activity_ref: Option<String> },
    Conditional { condition: Option<ConditionExpression> },
    Link { name: Option<String> },
    Terminate,
    /// No specific event definition
    Unspecified,
}

impl Clone for EventDefinition {
    fn clone(&self) -> (r: Self)
        ensures
            r == *self,
    {
        match self {
            EventDefinition::Message { message_ref } => EventDefinition::Message { message_ref: clone_opt_string(message_ref) },
            EventDefinition::Timer { time_definition } => EventDefinition::Timer { time_definition: clone_opt_string(time_definition) },
            EventDefinition::Signal { signal_ref } => EventDefinition::Signal { signal_ref: clone_opt_string(signal_ref) },
            EventDefinition::Error { error_ref } => EventDefinition::Error { error_ref: clone_opt_string(error_ref) },
            EventDefinition::Escalation { escalation_ref } => EventDefinition::Escalation { escalation_ref: clone_opt_string(escalation_ref) },
            EventDefinition::Cancel => EventDefinition::Cancel,
            EventDefinition::Compensation { activity_ref } => EventDefinition::Compensation { activity_ref: clone_opt_string(activity_ref) },
            EventDefinition::Conditional { condition } => EventDefinition::Conditional { condition: clone_opt_condition(condition) },
            EventDefinition::Link { name } => EventDefinition::Link { name: clone_opt_string(name) },
            EventDefinition::Terminate => EventDefinition::Terminate,
            EventDefinition::Unspecified => EventDefinition::Unspecified,
        }
    }
}

impl EventDefinition {
    /// The event definition that `json` describes.
    pub open spec fn spec_from_json(json: BpmnJsonEventDefinition) -> Self {
        match json {
            BpmnJsonEventDefinition::Message { message_ref } => EventDefinition::Message { message_ref },
            BpmnJsonEventDefinition::Timer { time_definition } => EventDefinition::Timer { time_definition },
            BpmnJsonEventDefinition::Signal { signal_ref } => EventDefinition::Signal { signal_ref },
            BpmnJsonEventDefinition::Error { error_ref } => EventDefinition::Error { error_ref },
            BpmnJsonEventDefinition::Escalation { escalation_ref } => EventDefinition::Escalation { escalation_ref },
            BpmnJsonEventDefinition::Cancel => EventDefinition::Cancel,
            BpmnJsonEventDefinition::Compensation { activity_ref } => EventDefinition::Compensation { activity_ref },
            BpmnJsonEventDefinition::Conditional { condition } => EventDefinition::Conditional { condition: opt_condition_from_json(condition) },
            BpmnJsonEventDefinition::Link { name } => EventDefinition::Link { name },
            BpmnJsonEventDefinition::Terminate => EventDefinition::Terminate,
            BpmnJsonEventDefinition::Unspecified => EventDefinition::Unspecified,
        }
    }

    /// The JSON form of this event definition.
    pub open spec fn spec_to_json(self) -> BpmnJsonEventDefinition {
        match self {
            EventDefinition::Message { message_ref } => BpmnJsonEventDefinition::Message { message_ref },
            EventDefinition::Timer { time_definition } => BpmnJsonEventDefinition::Timer { time_definition },
            EventDefinition::Signal { signal_ref } => BpmnJsonEventDefinition::Signal { signal_ref },
            EventDefinition::Error { error_ref } => BpmnJsonEventDefinition::Error { error_ref },
            EventDefinition::Escalation { escalation_ref } => BpmnJsonEventDefinition::Escalation { escalation_ref },
            EventDefinition::Cancel => BpmnJsonEventDefinition::Cancel,
            EventDefinition::Compensation { activity_ref } => BpmnJsonEventDefinition::Compensation { activity_ref },
            EventDefinition::Conditional { condition } => BpmnJsonEventDefinition::Conditional { condition: opt_condition_to_json(condition) },
            EventDefinition::Link { name } => BpmnJsonEventDefinition::Link { name },
            EventDefinition::Terminate => BpmnJsonEventDefinition::Terminate,
            EventDefinition::Unspecified => BpmnJsonEventDefinition::Unspecified,
        }
    }

    pub fn from_json(json: BpmnJsonEventDefinition) -> (r: Self)
        ensures
            r == Self::spec_from_json(json),
    {
        match json {
            BpmnJsonEventDefinition::Message { message_ref } => EventDefinition::Message { message_ref },
            BpmnJsonEventDefinition::Timer { time_definition } => EventDefinition::Timer { time_definition },
            BpmnJsonEventDefinition::Signal { signal_ref } => EventDefinition::Signal { signal_ref },
            BpmnJsonEventDefinition::Error { error_ref } => EventDefinition::Error { error_ref },
            BpmnJsonEventDefinition::Escalation { escalation_ref } => EventDefinition::Escalation { escalation_ref },
            BpmnJsonEventDefinition::Cancel => EventDefinition::Cancel,
            BpmnJsonEventDefinition::Compensation { activity_ref } => EventDefinition::Compensation { activity_ref },
            BpmnJsonEventDefinition::Conditional { condition } => EventDefinition::Conditional { condition: condition_from_json_opt(condition) },
            BpmnJsonEventDefinition::Link { name } => EventDefinition::Link { name },
            BpmnJsonEventDefinition::Terminate => EventDefinition::Terminate,
            BpmnJsonEventDefinition::Unspecified => EventDefinition::Unspecified,
        }
    }

    pub fn to_json(&self) -> (r: BpmnJsonEventDefinition)
        ensures
            r == self.spec_to_json(),
    {
        match self {
            EventDefinition::Message { message_ref } => BpmnJsonEventDefinition::Message { message_ref: clone_opt_string(message_ref) },
            EventDefinition::Timer { time_definition } => BpmnJsonEventDefinition::Timer { time_definition: clone_opt_string(time_definition) },
            EventDefinition::Signal { signal_ref } => BpmnJsonEventDefinition::Signal { signal_ref: clone_opt_string(signal_ref) },
            EventDefinition::Error { error_ref } => BpmnJsonEventDefinition::Error { error_ref: clone_opt_string(error_ref) },
            EventDefinition::Escalation { escalation_ref } => BpmnJsonEventDefinition::Escalation { escalation_ref: clone_opt_string(escalation_ref) },
            EventDefinition::Cancel => BpmnJsonEventDefinition::Cancel,
            EventDefinition::Compensation { activity_ref } => BpmnJsonEventDefinition::Compensation { activity_ref: clone_opt_string(activity_ref) },
            EventDefinition::Conditional { condition } => BpmnJsonEventDefinition::Conditional { condition: condition_to_json_opt(condition) },
            EventDefinition::Link { name } => BpmnJsonEventDefinition::Link { name: clone_opt_string(name) },
            EventDefinition::Terminate => BpmnJsonEventDefinition::Terminate,
            EventDefinition::Unspecified => BpmnJsonEventDefinition::Unspecified,
        }
    }
}

pub open spec fn opt_event_definition_from_json(o: Option<BpmnJsonEventDefinition>) -> Option<EventDefinition> {
    match o {
        Some(d) => Some(EventDefinition::spec_from_json(d)),
        None => None,
    }
}

pub open spec fn opt_event_definition_to_json(o: Option<EventDefinition>) -> Option<BpmnJsonEventDefinition> {
    match o {
        Some(d) => Some(d.spec_to_json()),
        None => None,
    }
}

fn event_definition_from_json_opt(o: Option<BpmnJsonEventDefinition>) -> (r: Option<EventDefinition>)
    ensures
        r == opt_event_definition_from_json(o),
{
    match o {
        Some(d) => Some(EventDefinition::from_json(d)),
        None => None,
    }
}

fn event_definition_to_json_opt(o: &Option<EventDefinition>) -> (r: Option<BpmnJsonEventDefinition>)
    ensures
        r == opt_event_definition_to_json(*o),
{
    match o {
        Some(d) => Some(d.to_json()),
        None => None,
    }
}

fn clone_opt_event_definition(o: &Option<EventDefinition>) -> (r: Option<EventDefinition>)
    ensures
        r == *o,
{
    match o {
        Some(d) => Some(d.clone()),
        None => None,
    }
}

/// Assignment
#[derive(Debug)]
pub struct Assignment {
    pub assignment_type: String,
    pub value: String,
}

impl Clone for Assignment {
    fn clone(&self) -> (r: Self)
        ensures
            r == *self,
    {
        Assignment { assignment_type: self.assignment_type.clone(), value: self.value.clone() }
    }
}

impl Assignment {
    pub open spec fn spec_from_json(json: BpmnJsonAssignment) -> Self {
        Assignment { assignment_type: json.assignment_type, value: json.value }
    }

    pub open spec fn spec_to_json(self) -> BpmnJsonAssignment {
        BpmnJsonAssignment { assignment_type: self.assignment_type, value: self.value }
    }

    pub fn from_json(json: BpmnJsonAssignment) -> (r: Self)
        ensures
            r == Self::spec_from_json(json),
    {
        Self { assignment_type: json.assignment_type, value: json.value }
    }

    pub fn to_json(&self) -> (r: BpmnJsonAssignment)
        ensures
            r == self.spec_to_json(),
    {
        BpmnJsonAssignment { assignment_type: self.assignment_type.clone(), value: self.value.clone() }
    }
}

pub open spec fn opt_assignment_from_json(o: Option<BpmnJsonAssignment>) -> Option<Assignment> {
    match o {
        Some(a) => Some(Assignment::spec_from_json(a)),
        None => None,
    }
}

pub open spec fn opt_assignment_to_json(o: Option<Assignment>) -> Option<BpmnJsonAssignment> {
    match o {
        Some(a) => Some(a.spec_to_json()),
        None => None,
    }
}

fn assignment_from_json_opt(o: Option<BpmnJsonAssignment>) -> (r: Option<Assignment>)
    ensures
        r == opt_assignment_from_json(o),
{
    match o {
        Some(a) => Some(Assignment::from_json(a)),
        None => None,
    }
}

fn assignment_to_json_opt(o: &Option<Assignment>) -> (r: Option<BpmnJsonAssignment>)
    ensures
        r == opt_assignment_to_json(*o),
{
    match o {
        Some(a) => Some(a.to_json()),
        None => None,
    }
}

fn clone_opt_assignment(o: &Option<Assignment>) -> (r: Option<Assignment>)
    ensures
        r == *o,
{
    match o {
        Some(a) => Some(a.clone()),
        None => None,
    }
}

/// Multi-instance loop characteristics of a task.
#[derive(Debug)]
pub struct MultiInstanceLoopCharacteristics {
    /// Parallel (`true`) or sequential (`false`) execution
    pub is_parallel: bool,
    /// Number of instances to create
    pub loop_cardinality: Option<i32>,
    /// Completion condition expression
    pub completion_condition: Option<String>,
    /// Behavior when one instance completes
    pub behavior: Option<String>,
}

impl Clone for MultiInstanceLoopCharacteristics {
    fn clone(&self) -> (r: Self)
        ensures
            r == *self,
    {
        MultiInstanceLoopCharacteristics {
            is_parallel: self.is_parallel,
            loop_cardinality: self.loop_cardinality,
            completion_condition: clone_opt_string(&self.completion_condition),
            behavior: clone_opt_string(&self.behavior),
        }
    }
}

impl MultiInstanceLoopCharacteristics {
    /// The characteristics that `json` describes; without `isParallel` they are sequential.
    pub open spec fn spec_from_json(json: BpmnJsonMultiInstanceLoopCharacteristics) -> Self {
        MultiInstanceLoopCharacteristics {
            is_parallel: match json.is_parallel {
                Some(b) => b,
                None => false,
            },
            loop_cardinality: json.loop_cardinality,
            completion_condition: json.completion_condition,
            behavior: json.behavior,
        }
    }

    pub open spec fn spec_to_json(self) -> BpmnJsonMultiInstanceLoopCharacteristics {
        BpmnJsonMultiInstanceLoopCharacteristics {
            is_parallel: Some(self.is_parallel),
            loop_cardinality: self.loop_cardinality,
            completion_condition: self.completion_condition,
            behavior: self.behavior,
        }
    }

    pub fn from_json(json: BpmnJsonMultiInstanceLoopCharacteristics) -> (r: Self)
        ensures
            r == Self::spec_from_json(json),
    {
        Self {
            is_parallel: match json.is_parallel {
                Some(b) => b,
                None => false,
            },
            loop_cardinality: json.loop_cardinality,
            completion_condition: json.completion_condition,
            behavior: json.behavior,
        }
    }

    pub fn to_json(&self) -> (r: BpmnJsonMultiInstanceLoopCharacteristics)
        ensures
            r == self.spec_to_json(),
    {
        BpmnJsonMultiInstanceLoopCharacteristics {
            is_parallel: Some(self.is_parallel),
            loop_cardinality: self.loop_cardinality,
            completion_condition: clone_opt_string(&self.completion_condition),
            behavior: clone_opt_string(&self.behavior),
        }
    }
}

pub open spec fn opt_loop_from_json(o: Option<BpmnJsonMultiInstanceLoopCharacteristics>) -> Option<MultiInstanceLoopCharacteristics> {
    match o {
        Some(m) => Some(MultiInstanceLoopCharacteristics::spec_from_json(m)),
        None => None,
    }
}

pub open spec fn opt_loop_to_json(o: Option<MultiInstanceLoopCharacteristics>) -> Option<BpmnJsonMultiInstanceLoopCharacteristics> {
    match o {
        Some(m) => Some(m.spec_to_json()),
        None => None,
    }
}

fn loop_from_json_opt(o: Option<BpmnJsonMultiInstanceLoopCharacteristics>) -> (r: Option<MultiInstanceLoopCharacteristics>)
    ensures
        r == opt_loop_from_json(o),
{
    match o {
        Some(m) => Some(MultiInstanceLoopCharacteristics::from_json(m)),
        None => None,
    }
}

fn loop_to_json_opt(o: &Option<MultiInstanceLoopCharacteristics>) -> (r: Option<BpmnJsonMultiInstanceLoopCharacteristics>)
    ensures
        r == opt_loop_to_json(*o),
{
    match o {
        Some(m) => Some(m.to_json()),
        None => None,
    }
}

fn clone_opt_loop(o: &Option<MultiInstanceLoopCharacteristics>) -> (r: Option<MultiInstanceLoopCharacteristics>)
    ensures
        r == *o,
{
    match o {
        Some(m) => Some(m.clone()),
        None => None,
    }
}

/// Data association of a call activity.
#[derive(Debug)]
pub struct DataAssociation {
    pub source_ref: Option<String>,
    pub target_ref: Option<String>,
    pub transformation: Option<String>,
}

impl Clone for DataAssociation {
    fn clone(&self) -> (r: Self)
        ensures
            r == *self,
    {
        DataAssociation {
            source_ref: clone_opt_string(&self.source_ref),
            target_ref: clone_opt_string(&self.target_ref),
            transformation: clone_opt_string(&self.transformation),
        }
    }
}

impl DataAssociation {
    pub open spec fn spec_from_json(json: BpmnJsonDataAssociation) -> Self {
        DataAssociation { source_ref: json.source_ref, target_ref: json.target_ref, transformation: json.transformation }
    }

    pub open spec fn spec_to_json(self) -> BpmnJsonDataAssociation {
        BpmnJsonDataAssociation { source_ref: self.source_ref, target_ref: self.target_ref, transformation: self.transformation }
    }

    pub fn from_json(json: BpmnJsonDataAssociation) -> (r: Self)
        ensures
            r == Self::spec_from_json(json),
    {
        Self { source_ref: json.source_ref, target_ref: json.target_ref, transformation: json.transformation }
    }

    pub fn to_json(&self) -> (r: BpmnJsonDataAssociation)
        ensures
            r == self.spec_to_json(),
    {
        BpmnJsonDataAssociation {
            source_ref: clone_opt_string(&self.source_ref),
            target_ref: clone_opt_string(&self.target_ref),
            transformation: clone_opt_string(&self.transformation),
        }
    }
}

fn associations_from_json(v: Vec<BpmnJsonDataAssociation>) -> (r: Vec<DataAssociation>)
    ensures
        r@ == v@.map_values(|a: BpmnJsonDataAssociation| DataAssociation::spec_from_json(a)),
{
    let ghost orig = v@;
    let mut r: Vec<DataAssociation> = Vec::new();
    for a in it: v
        invariant
            it.seq() == orig,
            r@ == orig.take(it.index() as int).map_values(|a: BpmnJsonDataAssociation| DataAssociation::spec_from_json(a)),
    {
        assert(orig.take(it.index() + 1) == orig.take(it.index() as int).push(a));
        r.push(DataAssociation::from_json(a));
    }
    assert(orig.take(orig.len() as int) == orig);
    r
}

fn associations_to_json(v: &Vec<DataAssociation>) -> (r: Vec<BpmnJsonDataAssociation>)
    ensures
        r@ == v@.map_values(|a: DataAssociation| a.spec_to_json()),
{
    let mut r: Vec<BpmnJsonDataAssociation> = Vec::new();
    let mut i: usize = 0;
    while i < v.len()
        invariant
            i <= v.len(),
            r@ == v@.take(i as int).map_values(|a: DataAssociation| a.spec_to_json()),
        decreases v.len() - i,
    {
        r.push(v[i].to_json());
        assert(v@.take(i + 1) == v@.take(i as int).push(v@[i as int]));
        i = i + 1;
    }
    assert(v@.take(v.len() as int) == v@);
    r
}

fn clone_associations(v: &Vec<DataAssociation>) -> (r: Vec<DataAssociation>)
    ensures
        r@ == v@,
{
    let mut r: Vec<DataAssociation> = Vec::new();
    let mut i: usize = 0;
    while i < v.len()
        invariant
            i <= v.len(),
            r@ == v@.take(i as int),
        decreases v.len() - i,
    {
        r.push(v[i].clone());
        assert(v@.take(i + 1) == v@.take(i as int).push(v@[i as int]));
        i = i + 1;
    }
    assert(v@.take(v.len() as int) == v@);
    r
}

/// The gateway direction a JSON parallel gateway gives (`Unknown` when none).
pub open spec fn direction_from_json(o: Option<GatewayDirection>) -> GatewayDirection {
    match o {
        Some(d) => d,
        None => GatewayDirection::Unknown,
    }
}

/// Sequence Flow
#[derive(Debug)]
pub struct SequenceFlow {
    pub id: String,
    pub name: Option<String>,
    pub source_ref: String,
    pub target_ref: String,
    pub condition_expression: Option<ConditionExpression>,
}

impl Clone for SequenceFlow {
    fn clone(&self) -> (r: Self)
        ensures
            r == *self,
    {
        SequenceFlow {
            id: self.id.clone(),
            name: clone_opt_string(&self.name),
            source_ref: self.source_ref.clone(),
            target_ref: self.target_ref.clone(),
            condition_expression: clone_opt_condition(&self.condition_expression),
        }
    }
}

impl SequenceFlow {
    /// The flow that `json` describes; its documentation is not kept.
    pub open spec fn spec_from_json(json: BpmnJsonSequenceFlow) -> Self {
        SequenceFlow {
            id: json.base.id,
            name: json.base.name,
            source_ref: json.source_ref,
            target_ref: json.target_ref,
            condition_expression: opt_condition_from_json(json.condition_expression),
        }
    }

    /// The JSON form of this flow (without documentation).
    pub open spec fn spec_to_json(self) -> BpmnJsonSequenceFlow {
        BpmnJsonSequenceFlow {
            base: BpmnJsonElementBase { id: self.id, name: self.name, documentation: None },
            source_ref: self.source_ref,
            target_ref: self.target_ref,
            condition_expression: opt_condition_to_json(self.condition_expression),
        }
    }

    pub fn from_json(json: BpmnJsonSequenceFlow) -> (r: Self)
        ensures
            r == Self::spec_from_json(json),
    {
        Self {
            id: json.base.id,
            name: json.base.name,
            source_ref: json.source_ref,
            target_ref: json.target_ref,
            condition_expression: condition_from_json_opt(json.condition_expression),
        }
    }

    pub fn to_json(&self) -> (r: BpmnJsonSequenceFlow)
        ensures
            r == self.spec_to_json(),
    {
        BpmnJsonSequenceFlow {
            base: BpmnJsonElementBase { id: self.id.clone(), name: clone_opt_string(&self.name), documentation: None },
            source_ref: self.source_ref.clone(),
            target_ref: self.target_ref.clone(),
            condition_expression: condition_to_json_opt(&self.condition_expression),
        }
    }
}

/// Variable
#[derive(Debug)]
pub struct Variable {
    pub name: String,
    pub variable_type: Option<String>,
    pub default_value: Option<JsonValue>,
}

/// The content of a variable.
pub struct VariableView {
    pub name: String,
    pub variable_type: Option<String>,
    pub default_value: Option<JsonData>,
}

impl View for Variable {
    type V = VariableView;

    open spec fn view(&self) -> VariableView {
        VariableView {
            name: self.name,
            variable_type: self.variable_type,
            default_value: opt_json_data(self.default_value),
        }
    }
}

impl Variable {
    /// The variable that `json` describes.
    pub open spec fn spec_from_json(json: BpmnJsonVariableView) -> VariableView {
        VariableView { name: json.name, variable_type: json.variable_type, default_value: json.default_value }
    }

    pub fn from_json(json: BpmnJsonVariable) -> (r: Self)
        ensures
            r@ == Self::spec_from_json(json@),
    {
        Self { name: json.name, variable_type: json.variable_type, default_value: json.default_value }
    }

    /// The variable's JSON form.
    pub fn to_json(&self) -> (r: BpmnJsonVariable)
        ensures
            r@ == (BpmnJsonVariableView {
                name: self@.name,
                variable_type: self@.variable_type,
                default_value: self@.default_value,
            }),
    {
        BpmnJsonVariable {
            name: self.name.clone(),
            variable_type: clone_opt_string(&self.variable_type),
            default_value: match &self.default_value {
                Some(v) => Some(clone_json(v)),
                None => None,
            },
        }
    }
}

/// Start Event
#[derive(Debug)]
pub struct StartEvent {
    pub base: ElementBase,
    pub event_definition: Option<EventDefinition>,
}

impl Clone for StartEvent {
    fn clone(&self) -> (r: Self)
        ensures
            r == *self,
    {
        StartEvent {
            base: self.base.clone(),
            event_definition: clone_opt_event_definition(&self.event_definition),
        }
    }
}

impl StartEvent {
    /// The start event that `json` describes.
    pub open spec fn spec_from_json(json: BpmnJsonStartEvent) -> Self {
        StartEvent {
            base: ElementBase::spec_from_json(json.base),
            event_definition: opt_event_definition_from_json(json.event_definition),
        }
    }

    /// The JSON form of this start event.
    pub open spec fn spec_to_json(self) -> BpmnJsonStartEvent {
        BpmnJsonStartEvent {
            base: self.base.spec_to_json(),
            event_definition: opt_event_definition_to_json(self.event_definition),
        }
    }

    pub fn from_json(json: BpmnJsonStartEvent) -> (r: Self)
        ensures
            r == Self::spec_from_json(json),
    {
        Self {
            base: ElementBase::from_json(json.base),
            event_definition: event_definition_from_json_opt(json.event_definition),
        }
    }

    pub fn to_json(&self) -> (r: BpmnJsonStartEvent)
        ensures
            r == self.spec_to_json(),
    {
        BpmnJsonStartEvent {
            base: self.base.to_json(),
            event_definition: event_definition_to_json_opt(&self.event_definition),
        }
    }
}

/// End Event
#[derive(Debug)]
pub struct EndEvent {
    pub base: ElementBase,
    pub event_definition: Option<EventDefinition>,
}

impl Clone for EndEvent {
    fn clone(&self) -> (r: Self)
        ensures
            r == *self,
    {
        EndEvent {
            base: self.base.clone(),
            event_definition: clone_opt_event_definition(&self.event_definition),
        }
    }
}

impl EndEvent {
    /// The end event that `json` describes.
    pub open spec fn spec_from_json(json: BpmnJsonEndEvent) -> Self {
        EndEvent {
            base: ElementBase::spec_from_json(json.base),
            event_definition: opt_event_definition_from_json(json.event_definition),
        }
    }

    /// The JSON form of this end event.
    pub open spec fn spec_to_json(self) -> BpmnJsonEndEvent {
        BpmnJsonEndEvent {
            base: self.base.spec_to_json(),
            event_definition: opt_event_definition_to_json(self.event_definition),
        }
    }

    pub fn from_json(json: BpmnJsonEndEvent) -> (r: Self)
        ensures
            r == Self::spec_from_json(json),
    {
        Self {
            base: ElementBase::from_json(json.base),
            event_definition: event_definition_from_json_opt(json.event_definition),
        }
    }

    pub fn to_json(&self) -> (r: BpmnJsonEndEvent)
        ensures
            r == self.spec_to_json(),
    {
        BpmnJsonEndEvent {
            base: self.base.to_json(),
            event_definition: event_definition_to_json_opt(&self.event_definition),
        }
    }
}

/// Intermediate Catch Event
#[derive(Debug)]
pub struct IntermediateCatchEvent {
    pub base: ElementBase,
    pub event_definition: Option<EventDefinition>,
}

impl Clone for IntermediateCatchEvent {
    fn clone(&self) -> (r: Self)
        ensures
            r == *self,
    {
        IntermediateCatchEvent {
            base: self.base.clone(),
            event_definition: clone_opt_event_definition(&self.event_definition),
        }
    }
}

impl IntermediateCatchEvent {
    /// The intermediate catch event that `json` describes.
    pub open spec fn spec_from_json(json: BpmnJsonIntermediateCatchEvent) -> Self {
        IntermediateCatchEvent {
            base: ElementBase::spec_from_json(json.base),
            event_definition: opt_event_definition_from_json(json.event_definition),
        }
    }

    /// The JSON form of this intermediate catch event.
    pub open spec fn spec_to_json(self) -> BpmnJsonIntermediateCatchEvent {
        BpmnJsonIntermediateCatchEvent {
            base: self.base.spec_to_json(),
            event_definition: opt_event_definition_to_json(self.event_definition),
        }
    }

    pub fn from_json(json: BpmnJsonIntermediateCatchEvent) -> (r: Self)
        ensures
            r == Self::spec_from_json(json),
    {
        Self {
            base: ElementBase::from_json(json.base),
            event_definition: event_definition_from_json_opt(json.event_definition),
        }
    }

    pub fn to_json(&self) -> (r: BpmnJsonIntermediateCatchEvent)
        ensures
            r == self.spec_to_json(),
    {
        BpmnJsonIntermediateCatchEvent {
            base: self.base.to_json(),
            event_definition: event_definition_to_json_opt(&self.event_definition),
        }
    }
}

/// Intermediate Throw Event
#[derive(Debug)]
pub struct IntermediateThrowEvent {
    pub base: ElementBase,
    pub event_definition: Option<EventDefinition>,
}

impl Clone for IntermediateThrowEvent {
    fn clone(&self) -> (r: Self)
        ensures
            r == *self,
    {
        IntermediateThrowEvent {
            base: self.base.clone(),
            event_definition: clone_opt_event_definition(&self.event_definition),
        }
    }
}

impl IntermediateThrowEvent {
    /// The intermediate throw event that `json` describes.
    pub open spec fn spec_from_json(json: BpmnJsonIntermediateThrowEvent) -> Self {
        IntermediateThrowEvent {
            base: ElementBase::spec_from_json(json.base),
            event_definition: opt_event_definition_from_json(json.event_definition),
        }
    }

    /// The JSON form of this intermediate throw event.
    pub open spec fn spec_to_json(self) -> BpmnJsonIntermediateThrowEvent {
        BpmnJsonIntermediateThrowEvent {
            base: self.base.spec_to_json(),
            event_definition: opt_event_definition_to_json(self.event_definition),
        }
    }

    pub fn from_json(json: BpmnJsonIntermediateThrowEvent) -> (r: Self)
        ensures
            r == Self::spec_from_json(json),
    {
        Self {
            base: ElementBase::from_json(json.base),
            event_definition: event_definition_from_json_opt(json.event_definition),
        }
    }

    pub fn to_json(&self) -> (r: BpmnJsonIntermediateThrowEvent)
        ensures
            r == self.spec_to_json(),
    {
        BpmnJsonIntermediateThrowEvent {
            base: self.base.to_json(),
            event_definition: event_definition_to_json_opt(&self.event_definition),
        }
    }
}

/// Service Task
#[derive(Debug)]
pub struct ServiceTask {
    pub base: ElementBase,
    pub implementation: Option<String>,
    pub operation_ref: Option<String>,
    pub io_mapping: IoMapping,
    pub loop_characteristics: Option<MultiInstanceLoopCharacteristics>,
}

/// The content of a service task.
pub struct ServiceTaskView {
    pub base: ElementBase,
    pub implementation: Option<String>,
    pub operation_ref: Option<String>,
    pub io_mapping: IoMappingView,
    pub loop_characteristics: Option<MultiInstanceLoopCharacteristics>,
}

impl View for ServiceTask {
    type V = ServiceTaskView;

    open spec fn view(&self) -> ServiceTaskView {
        ServiceTaskView {
            base: self.base,
            implementation: self.implementation,
            operation_ref: self.operation_ref,
            io_mapping: self.io_mapping@,
            loop_characteristics: self.loop_characteristics,
        }
    }
}

impl Clone for ServiceTask {
    fn clone(&self) -> (r: Self)
        ensures
            r@ == self@,
    {
        ServiceTask {
            base: self.base.clone(),
            implementation: clone_opt_string(&self.implementation),
            operation_ref: clone_opt_string(&self.operation_ref),
            io_mapping: self.io_mapping.clone(),
            loop_characteristics: clone_opt_loop(&self.loop_characteristics),
        }
    }
}

impl ServiceTaskView {
    /// The JSON form of this service task.
    pub open spec fn spec_to_json(self) -> BpmnJsonServiceTaskView {
        BpmnJsonServiceTaskView {
            base: self.base.spec_to_json(),
            implementation: self.implementation,
            operation_ref: self.operation_ref,
            io_mapping: io_mapping_to_json(self.io_mapping),
            loop_characteristics: opt_loop_to_json(self.loop_characteristics),
        }
    }
}

impl ServiceTask {
    /// The service task that `json` describes.
    pub open spec fn spec_from_json(json: BpmnJsonServiceTaskView) -> ServiceTaskView {
        ServiceTaskView {
            base: ElementBase::spec_from_json(json.base),
            implementation: json.implementation,
            operation_ref: json.operation_ref,
            io_mapping: io_mapping_from_json(json.io_mapping),
            loop_characteristics: opt_loop_from_json(json.loop_characteristics),
        }
    }

    pub fn from_json(json: BpmnJsonServiceTask) -> (r: Self)
        ensures
            r@ == Self::spec_from_json(json@),
    {
        Self {
            base: ElementBase::from_json(json.base),
            implementation: json.implementation,
            operation_ref: json.operation_ref,
            io_mapping: IoMapping::from_json(json.io_mapping),
            loop_characteristics: loop_from_json_opt(json.loop_characteristics),
        }
    }

    pub fn to_json(&self) -> (r: BpmnJsonServiceTask)
        ensures
            r@ == self@.spec_to_json(),
    {
        BpmnJsonServiceTask {
            base: self.base.to_json(),
            implementation: clone_opt_string(&self.implementation),
            operation_ref: clone_opt_string(&self.operation_ref),
            io_mapping: self.io_mapping.to_json(),
            loop_characteristics: loop_to_json_opt(&self.loop_characteristics),
        }
    }
}

/// User Task
#[derive(Debug)]
pub struct UserTask {
    pub base: ElementBase,
    pub assignment: Option<Assignment>,
    pub form_key: Option<String>,
    pub loop_characteristics: Option<MultiInstanceLoopCharacteristics>,
}

impl Clone for UserTask {
    fn clone(&self) -> (r: Self)
        ensures
            r == *self,
    {
        UserTask {
            base: self.base.clone(),
            assignment: clone_opt_assignment(&self.assignment),
            form_key: clone_opt_string(&self.form_key),
            loop_characteristics: clone_opt_loop(&self.loop_characteristics),
        }
    }
}

impl UserTask {
    /// The user task that `json` describes.
    pub open spec fn spec_from_json(json: BpmnJsonUserTask) -> Self {
        UserTask {
            base: ElementBase::spec_from_json(json.base),
            assignment: opt_assignment_from_json(json.assignment),
            form_key: json.form_key,
            loop_characteristics: opt_loop_from_json(json.loop_characteristics),
        }
    }

    /// The JSON form of this user task.
    pub open spec fn spec_to_json(self) -> BpmnJsonUserTask {
        BpmnJsonUserTask {
            base: self.base.spec_to_json(),
            assignment: opt_assignment_to_json(self.assignment),
            form_key: self.form_key,
            loop_characteristics: opt_loop_to_json(self.loop_characteristics),
        }
    }

    pub fn from_json(json: BpmnJsonUserTask) -> (r: Self)
        ensures
            r == Self::spec_from_json(json),
    {
        Self {
            base: ElementBase::from_json(json.base),
            assignment: assignment_from_json_opt(json.assignment),
            form_key: json.form_key,
            loop_characteristics: loop_from_json_opt(json.loop_characteristics),
        }
    }

    pub fn to_json(&self) -> (r: BpmnJsonUserTask)
        ensures
            r == self.spec_to_json(),
    {
        BpmnJsonUserTask {
            base: self.base.to_json(),
            assignment: assignment_to_json_opt(&self.assignment),
            form_key: clone_opt_string(&self.form_key),
            loop_characteristics: loop_to_json_opt(&self.loop_characteristics),
        }
    }
}

/// Script Task
#[derive(Debug)]
pub struct ScriptTask {
    pub base: ElementBase,
    pub script_format: Option<String>,
    pub script: Option<String>,
    pub loop_characteristics: Option<MultiInstanceLoopCharacteristics>,
}

impl Clone for ScriptTask {
    fn clone(&self) -> (r: Self)
        ensures
            r == *self,
    {
        ScriptTask {
            base: self.base.clone(),
            script_format: clone_opt_string(&self.script_format),
            script: clone_opt_string(&self.script),
            loop_characteristics: clone_opt_loop(&self.loop_characteristics),
        }
    }
}

impl ScriptTask {
    /// The script task that `json` describes.
    pub open spec fn spec_from_json(json: BpmnJsonScriptTask) -> Self {
        ScriptTask {
            base: ElementBase::spec_from_json(json.base),
            script_format: json.script_format,
            script: json.script,
            loop_characteristics: opt_loop_from_json(json.loop_characteristics),
        }
    }

    /// The JSON form of this script task.
    pub open spec fn spec_to_json(self) -> BpmnJsonScriptTask {
        BpmnJsonScriptTask {
            base: self.base.spec_to_json(),
            script_format: self.script_format,
            script: self.script,
            loop_characteristics: opt_loop_to_json(self.loop_characteristics),
        }
    }

    pub fn from_json(json: BpmnJsonScriptTask) -> (r: Self)
        ensures
            r == Self::spec_from_json(json),
    {
        Self {
            base: ElementBase::from_json(json.base),
            script_format: json.script_format,
            script: json.script,
            loop_characteristics: loop_from_json_opt(json.loop_characteristics),
        }
    }

    pub fn to_json(&self) -> (r: BpmnJsonScriptTask)
        ensures
            r == self.spec_to_json(),
    {
        BpmnJsonScriptTask {
            base: self.base.to_json(),
            script_format: clone_opt_string(&self.script_format),
            script: clone_opt_string(&self.script),
            loop_characteristics: loop_to_json_opt(&self.loop_characteristics),
        }
    }
}

/// Manual Task
#[derive(Debug)]
pub struct ManualTask {
    pub base: ElementBase,
}

impl Clone for ManualTask {
    fn clone(&self) -> (r: Self)
        ensures
            r == *self,
    {
        ManualTask {
            base: self.base.clone(),
        }
    }
}

impl ManualTask {
    /// The manual task that `json` describes.
    pub open spec fn spec_from_json(json: BpmnJsonManualTask) -> Self {
        ManualTask {
            base: ElementBase::spec_from_json(json.base),
        }
    }

    /// The JSON form of this manual task.
    pub open spec fn spec_to_json(self) -> BpmnJsonManualTask {
        BpmnJsonManualTask {
            base: self.base.spec_to_json(),
        }
    }

    pub fn from_json(json: BpmnJsonManualTask) -> (r: Self)
        ensures
            r == Self::spec_from_json(json),
    {
        Self {
            base: ElementBase::from_json(json.base),
        }
    }

    pub fn to_json(&self) -> (r: BpmnJsonManualTask)
        ensures
            r == self.spec_to_json(),
    {
        BpmnJsonManualTask {
            base: self.base.to_json(),
        }
    }
}

/// Exclusive Gateway
#[derive(Debug)]
pub struct ExclusiveGateway {
    pub base: ElementBase,
    pub default_flow: Option<String>,
}

impl Clone for ExclusiveGateway {
    fn clone(&self) -> (r: Self)
        ensures
            r == *self,
    {
        ExclusiveGateway {
            base: self.base.clone(),
            default_flow: clone_opt_string(&self.default_flow),
        }
    }
}

impl ExclusiveGateway {
    /// The exclusive gateway that `json` describes.
    pub open spec fn spec_from_json(json: BpmnJsonExclusiveGateway) -> Self {
        ExclusiveGateway {
            base: ElementBase::spec_from_json(json.base),
            default_flow: json.default_flow,
        }
    }

    /// The JSON form of this exclusive gateway.
    pub open spec fn spec_to_json(self) -> BpmnJsonExclusiveGateway {
        BpmnJsonExclusiveGateway {
            base: self.base.spec_to_json(),
            default_flow: self.default_flow,
        }
    }

    pub fn from_json(json: BpmnJsonExclusiveGateway) -> (r: Self)
        ensures
            r == Self::spec_from_json(json),
    {
        Self {
            base: ElementBase::from_json(json.base),
            default_flow: json.default_flow,
        }
    }

    pub fn to_json(&self) -> (r: BpmnJsonExclusiveGateway)
        ensures
            r == self.spec_to_json(),
    {
        BpmnJsonExclusiveGateway {
            base: self.base.to_json(),
            default_flow: clone_opt_string(&self.default_flow),
        }
    }
}

/// Parallel Gateway
#[derive(Debug)]
pub struct ParallelGateway {
    pub base: ElementBase,
    pub default_flow: Option<String>,
    pub gateway_direction: GatewayDirection,
}

impl Clone for ParallelGateway {
    fn clone(&self) -> (r: Self)
        ensures
            r == *self,
    {
        ParallelGateway {
            base: self.base.clone(),
            default_flow: clone_opt_string(&self.default_flow),
            gateway_direction: self.gateway_direction,
        }
    }
}

impl ParallelGateway {
    /// The parallel gateway that `json` describes.
    pub open spec fn spec_from_json(json: BpmnJsonParallelGateway) -> Self {
        ParallelGateway {
            base: ElementBase::spec_from_json(json.base),
            default_flow: json.default_flow,
            gateway_direction: direction_from_json(json.gateway_direction),
        }
    }

    /// The JSON form of this parallel gateway.
    pub open spec fn spec_to_json(self) -> BpmnJsonParallelGateway {
        BpmnJsonParallelGateway {
            base: self.base.spec_to_json(),
            default_flow: self.default_flow,
            gateway_direction: Some(self.gateway_direction),
        }
    }

    pub fn from_json(json: BpmnJsonParallelGateway) -> (r: Self)
        ensures
            r == Self::spec_from_json(json),
    {
        Self {
            base: ElementBase::from_json(json.base),
            default_flow: json.default_flow,
            gateway_direction: match json.gateway_direction {
                Some(d) => d,
                None => GatewayDirection::Unknown,
            },
        }
    }

    pub fn to_json(&self) -> (r: BpmnJsonParallelGateway)
        ensures
            r == self.spec_to_json(),
    {
        BpmnJsonParallelGateway {
            base: self.base.to_json(),
            default_flow: clone_opt_string(&self.default_flow),
            gateway_direction: Some(self.gateway_direction),
        }
    }
}

/// Inclusive Gateway
#[derive(Debug)]
pub struct InclusiveGateway {
    pub base: ElementBase,
    pub default_flow: Option<String>,
}

impl Clone for InclusiveGateway {
    fn clone(&self) -> (r: Self)
        ensures
            r == *self,
    {
        InclusiveGateway {
            base: self.base.clone(),
            default_flow: clone_opt_string(&self.default_flow),
        }
    }
}

impl InclusiveGateway {
    /// The inclusive gateway that `json` describes.
    pub open spec fn spec_from_json(json: BpmnJsonInclusiveGateway) -> Self {
        InclusiveGateway {
            base: ElementBase::spec_from_json(json.base),
            default_flow: json.default_flow,
        }
    }

    /// The JSON form of this inclusive gateway.
    pub open spec fn spec_to_json(self) -> BpmnJsonInclusiveGateway {
        BpmnJsonInclusiveGateway {
            base: self.base.spec_to_json(),
            default_flow: self.default_flow,
        }
    }

    pub fn from_json(json: BpmnJsonInclusiveGateway) -> (r: Self)
        ensures
            r == Self::spec_from_json(json),
    {
        Self {
            base: ElementBase::from_json(json.base),
            default_flow: json.default_flow,
        }
    }

    pub fn to_json(&self) -> (r: BpmnJsonInclusiveGateway)
        ensures
            r == self.spec_to_json(),
    {
        BpmnJsonInclusiveGateway {
            base: self.base.to_json(),
            default_flow: clone_opt_string(&self.default_flow),
        }
    }
}

/// Data Object
#[derive(Debug)]
pub struct DataObject {
    pub base: ElementBase,
    pub data_state: Option<String>,
}

impl Clone for DataObject {
    fn clone(&self) -> (r: Self)
        ensures
            r == *self,
    {
        DataObject {
            base: self.base.clone(),
            data_state: clone_opt_string(&self.data_state),
        }
    }
}

impl DataObject {
    /// The data object that `json` describes.
    pub open spec fn spec_from_json(json: BpmnJsonDataObject) -> Self {
        DataObject {
            base: ElementBase::spec_from_json(json.base),
            data_state: json.data_state,
        }
    }

    /// The JSON form of this data object.
    pub open spec fn spec_to_json(self) -> BpmnJsonDataObject {
        BpmnJsonDataObject {
            base: self.base.spec_to_json(),
            data_state: self.data_state,
        }
    }

    pub fn from_json(json: BpmnJsonDataObject) -> (r: Self)
        ensures
            r == Self::spec_from_json(json),
    {
        Self {
            base: ElementBase::from_json(json.base),
            data_state: json.data_state,
        }
    }

    pub fn to_json(&self) -> (r: BpmnJsonDataObject)
        ensures
            r == self.spec_to_json(),
    {
        BpmnJsonDataObject {
            base: self.base.to_json(),
            data_state: clone_opt_string(&self.data_state),
        }
    }
}

/// Data Input
#[derive(Debug)]
pub struct DataInput {
    pub base: ElementBase,
    pub input_set: Option<String>,
}

impl Clone for DataInput {
    fn clone(&self) -> (r: Self)
        ensures
            r == *self,
    {
        DataInput {
            base: self.base.clone(),
            input_set: clone_opt_string(&self.input_set),
        }
    }
}

impl DataInput {
    /// The data input that `json` describes.
    pub open spec fn spec_from_json(json: BpmnJsonDataInput) -> Self {
        DataInput {
            base: ElementBase::spec_from_json(json.base),
            input_set: json.input_set,
        }
    }

    /// The JSON form of this data input.
    pub open spec fn spec_to_json(self) -> BpmnJsonDataInput {
        BpmnJsonDataInput {
            base: self.base.spec_to_json(),
            input_set: self.input_set,
        }
    }

    pub fn from_json(json: BpmnJsonDataInput) -> (r: Self)
        ensures
            r == Self::spec_from_json(json),
    {
        Self {
            base: ElementBase::from_json(json.base),
            input_set: json.input_set,
        }
    }

    pub fn to_json(&self) -> (r: BpmnJsonDataInput)
        ensures
            r == self.spec_to_json(),
    {
        BpmnJsonDataInput {
            base: self.base.to_json(),
            input_set: clone_opt_string(&self.input_set),
        }
    }
}

/// Data Output
#[derive(Debug)]
pub struct DataOutput {
    pub base: ElementBase,
    pub output_set: Option<String>,
}

impl Clone for DataOutput {
    fn clone(&self) -> (r: Self)
        ensures
            r == *self,
    {
        DataOutput {
            base: self.base.clone(),
            output_set: clone_opt_string(&self.output_set),
        }
    }
}

impl DataOutput {
    /// The data output that `json` describes.
    pub open spec fn spec_from_json(json: BpmnJsonDataOutput) -> Self {
        DataOutput {
            base: ElementBase::spec_from_json(json.base),
            output_set: json.output_set,
        }
    }

    /// The JSON form of this data output.
    pub open spec fn spec_to_json(self) -> BpmnJsonDataOutput {
        BpmnJsonDataOutput {
            base: self.base.spec_to_json(),
            output_set: self.output_set,
        }
    }

    pub fn from_json(json: BpmnJsonDataOutput) -> (r: Self)
        ensures
            r == Self::spec_from_json(json),
    {
        Self {
            base: ElementBase::from_json(json.base),
            output_set: json.output_set,
        }
    }

    pub fn to_json(&self) -> (r: BpmnJsonDataOutput)
        ensures
            r == self.spec_to_json(),
    {
        BpmnJsonDataOutput {
            base: self.base.to_json(),
            output_set: clone_opt_string(&self.output_set),
        }
    }
}

/// Data Object Reference
#[derive(Debug)]
pub struct DataObjectReference {
    pub base: ElementBase,
    pub data_object_ref: Option<String>,
}

impl Clone for DataObjectReference {
    fn clone(&self) -> (r: Self)
        ensures
            r == *self,
    {
        DataObjectReference {
            base: self.base.clone(),
            data_object_ref: clone_opt_string(&self.data_object_ref),
        }
    }
}

impl DataObjectReference {
    /// The data object reference that `json` describes.
    pub open spec fn spec_from_json(json: BpmnJsonDataObjectReference) -> Self {
        DataObjectReference {
            base: ElementBase::spec_from_json(json.base),
            data_object_ref: json.data_object_ref,
        }
    }

    /// The JSON form of this data object reference.
    pub open spec fn spec_to_json(self) -> BpmnJsonDataObjectReference {
        BpmnJsonDataObjectReference {
            base: self.base.spec_to_json(),
            data_object_ref: self.data_object_ref,
        }
    }

    pub fn from_json(json: BpmnJsonDataObjectReference) -> (r: Self)
        ensures
            r == Self::spec_from_json(json),
    {
        Self {
            base: ElementBase::from_json(json.base),
            data_object_ref: json.data_object_ref,
        }
    }

    pub fn to_json(&self) -> (r: BpmnJsonDataObjectReference)
        ensures
            r == self.spec_to_json(),
    {
        BpmnJsonDataObjectReference {
            base: self.base.to_json(),
            data_object_ref: clone_opt_string(&self.data_object_ref),
        }
    }
}

/// Call Activity
#[derive(Debug)]
pub struct CallActivity {
    pub base: ElementBase,
    pub called_element: Option<String>,
    pub business_key: Option<String>,
    pub data_input_associations: Vec<DataAssociation>,
    pub data_output_associations: Vec<DataAssociation>,
}

/// The content of a call activity.
pub struct CallActivityView {
    pub base: ElementBase,
    pub called_element: Option<String>,
    pub business_key: Option<String>,
    pub data_input_associations: Seq<DataAssociation>,
    pub data_output_associations: Seq<DataAssociation>,
}

impl View for CallActivity {
    type V = CallActivityView;

    open spec fn view(&self) -> CallActivityView {
        CallActivityView {
            base: self.base,
            called_element: self.called_element,
            business_key: self.business_key,
            data_input_associations: self.data_input_associations@,
            data_output_associations: self.data_output_associations@,
        }
    }
}

impl Clone for CallActivity {
    fn clone(&self) -> (r: Self)
        ensures
            r@ == self@,
    {
        CallActivity {
            base: self.base.clone(),
            called_element: clone_opt_string(&self.called_element),
            business_key: clone_opt_string(&self.business_key),
            data_input_associations: clone_associations(&self.data_input_associations),
            data_output_associations: clone_associations(&self.data_output_associations),
        }
    }
}

impl CallActivityView {
    /// The JSON form of this call activity.
    pub open spec fn spec_to_json(self) -> BpmnJsonCallActivityView {
        BpmnJsonCallActivityView {
            base: self.base.spec_to_json(),
            called_element: self.called_element,
            business_key: self.business_key,
            data_input_associations: self.data_input_associations.map_values(|a: DataAssociation| a.spec_to_json()),
            data_output_associations: self.data_output_associations.map_values(|a: DataAssociation| a.spec_to_json()),
        }
    }
}

impl CallActivity {
    /// The call activity that `json` describes.
    pub open spec fn spec_from_json(json: BpmnJsonCallActivityView) -> CallActivityView {
        CallActivityView {
            base: ElementBase::spec_from_json(json.base),
            called_element: json.called_element,
            business_key: json.business_key,
            data_input_associations: json.data_input_associations.map_values(|a: BpmnJsonDataAssociation| DataAssociation::spec_from_json(a)),
            data_output_associations: json.data_output_associations.map_values(|a: BpmnJsonDataAssociation| DataAssociation::spec_from_json(a)),
        }
    }

    pub fn from_json(json: BpmnJsonCallActivity) -> (r: Self)
        ensures
            r@ == Self::spec_from_json(json@),
    {
        Self {
            base: ElementBase::from_json(json.base),
            called_element: json.called_element,
            business_key: json.business_key,
            data_input_associations: associations_from_json(json.data_input_associations),
            data_output_associations: associations_from_json(json.data_output_associations),
        }
    }

    pub fn to_json(&self) -> (r: BpmnJsonCallActivity)
        ensures
            r@ == self@.spec_to_json(),
    {
        BpmnJsonCallActivity {
            base: self.base.to_json(),
            called_element: clone_opt_string(&self.called_element),
            business_key: clone_opt_string(&self.business_key),
            data_input_associations: associations_to_json(&self.data_input_associations),
            data_output_associations: associations_to_json(&self.data_output_associations),
        }
    }
}


/// Any BPMN element of a process (task, gateway, event, data, call).
#[derive(Debug)]
pub enum ProcessElement {
    StartEvent(StartEvent),
    EndEvent(EndEvent),
    IntermediateCatchEvent(IntermediateCatchEvent),
    IntermediateThrowEvent(IntermediateThrowEvent),
    ServiceTask(ServiceTask),
    UserTask(UserTask),
    ScriptTask(ScriptTask),
    ManualTask(ManualTask),
    ExclusiveGateway(ExclusiveGateway),
    ParallelGateway(ParallelGateway),
    InclusiveGateway(InclusiveGateway),
    DataObject(DataObject),
    DataInput(DataInput),
    DataOutput(DataOutput),
    DataObjectReference(DataObjectReference),
    CallActivity(CallActivity),
}

/// The content of a process element.
pub enum ProcessElementView {
    StartEvent(StartEvent),
    EndEvent(EndEvent),
    IntermediateCatchEvent(IntermediateCatchEvent),
    IntermediateThrowEvent(IntermediateThrowEvent),
    ServiceTask(ServiceTaskView),
    UserTask(UserTask),
    ScriptTask(ScriptTask),
    ManualTask(ManualTask),
    ExclusiveGateway(ExclusiveGateway),
    ParallelGateway(ParallelGateway),
    InclusiveGateway(InclusiveGateway),
    DataObject(DataObject),
    DataInput(DataInput),
    DataOutput(DataOutput),
    DataObjectReference(DataObjectReference),
    CallActivity(CallActivityView),
}

impl View for ProcessElement {
    type V = ProcessElementView;

    open spec fn view(&self) -> ProcessElementView {
        match *self {
            ProcessElement::StartEvent(e) => ProcessElementView::StartEvent(e),
            ProcessElement::EndEvent(e) => ProcessElementView::EndEvent(e),
            ProcessElement::IntermediateCatchEvent(e) => ProcessElementView::IntermediateCatchEvent(e),
            ProcessElement::IntermediateThrowEvent(e) => ProcessElementView::IntermediateThrowEvent(e),
            ProcessElement::ServiceTask(e) => ProcessElementView::ServiceTask(e@),
            ProcessElement::UserTask(e) => ProcessElementView::UserTask(e),
            ProcessElement::ScriptTask(e) => ProcessElementView::ScriptTask(e),
            ProcessElement::ManualTask(e) => ProcessElementView::ManualTask(e),
            ProcessElement::ExclusiveGateway(e) => ProcessElementView::ExclusiveGateway(e),
            ProcessElement::ParallelGateway(e) => ProcessElementView::ParallelGateway(e),
            ProcessElement::InclusiveGateway(e) => ProcessElementView::InclusiveGateway(e),
            ProcessElement::DataObject(e) => ProcessElementView::DataObject(e),
            ProcessElement::DataInput(e) => ProcessElementView::DataInput(e),
            ProcessElement::DataOutput(e) => ProcessElementView::DataOutput(e),
            ProcessElement::DataObjectReference(e) => ProcessElementView::DataObjectReference(e),
            ProcessElement::CallActivity(e) => ProcessElementView::CallActivity(e@),
        }
    }
}

impl ProcessElementView {
    /// The element's base properties.
    pub open spec fn base(self) -> ElementBase {
        match self {
            ProcessElementView::StartEvent(e) => e.base,
            ProcessElementView::EndEvent(e) => e.base,
            ProcessElementView::IntermediateCatchEvent(e) => e.base,
            ProcessElementView::IntermediateThrowEvent(e) => e.base,
            ProcessElementView::ServiceTask(e) => e.base,
            ProcessElementView::UserTask(e) => e.base,
            ProcessElementView::ScriptTask(e) => e.base,
            ProcessElementView::ManualTask(e) => e.base,
            ProcessElementView::ExclusiveGateway(e) => e.base,
            ProcessElementView::ParallelGateway(e) => e.base,
            ProcessElementView::InclusiveGateway(e) => e.base,
            ProcessElementView::DataObject(e) => e.base,
            ProcessElementView::DataInput(e) => e.base,
            ProcessElementView::DataOutput(e) => e.base,
            ProcessElementView::DataObjectReference(e) => e.base,
            ProcessElementView::CallActivity(e) => e.base,
        }
    }

    /// The element's ID.
    pub open spec fn id(self) -> String {
        match self {
            ProcessElementView::StartEvent(e) => e.base.id,
            ProcessElementView::EndEvent(e) => e.base.id,
            ProcessElementView::IntermediateCatchEvent(e) => e.base.id,
            ProcessElementView::IntermediateThrowEvent(e) => e.base.id,
            ProcessElementView::ServiceTask(e) => e.base.id,
            ProcessElementView::UserTask(e) => e.base.id,
            ProcessElementView::ScriptTask(e) => e.base.id,
            ProcessElementView::ManualTask(e) => e.base.id,
            ProcessElementView::ExclusiveGateway(e) => e.base.id,
            ProcessElementView::ParallelGateway(e) => e.base.id,
            ProcessElementView::InclusiveGateway(e) => e.base.id,
            ProcessElementView::DataObject(e) => e.base.id,
            ProcessElementView::DataInput(e) => e.base.id,
            ProcessElementView::DataOutput(e) => e.base.id,
            ProcessElementView::DataObjectReference(e) => e.base.id,
            ProcessElementView::CallActivity(e) => e.base.id,
        }
    }

    /// The element's JSON form.
    pub open spec fn spec_to_json_element(self) -> BpmnJsonElementView {
        match self {
            ProcessElementView::StartEvent(e) => BpmnJsonElementView::StartEvent(e.spec_to_json()),
            ProcessElementView::EndEvent(e) => BpmnJsonElementView::EndEvent(e.spec_to_json()),
            ProcessElementView::IntermediateCatchEvent(e) => BpmnJsonElementView::IntermediateCatchEvent(e.spec_to_json()),
            ProcessElementView::IntermediateThrowEvent(e) => BpmnJsonElementView::IntermediateThrowEvent(e.spec_to_json()),
            ProcessElementView::ServiceTask(e) => BpmnJsonElementView::ServiceTask(e.spec_to_json()),
            ProcessElementView::UserTask(e) => BpmnJsonElementView::UserTask(e.spec_to_json()),
            ProcessElementView::ScriptTask(e) => BpmnJsonElementView::ScriptTask(e.spec_to_json()),
            ProcessElementView::ManualTask(e) => BpmnJsonElementView::ManualTask(e.spec_to_json()),
            ProcessElementView::ExclusiveGateway(e) => BpmnJsonElementView::ExclusiveGateway(e.spec_to_json()),
            ProcessElementView::ParallelGateway(e) => BpmnJsonElementView::ParallelGateway(e.spec_to_json()),
            ProcessElementView::InclusiveGateway(e) => BpmnJsonElementView::InclusiveGateway(e.spec_to_json()),
            ProcessElementView::DataObject(e) => BpmnJsonElementView::DataObject(e.spec_to_json()),
            ProcessElementView::DataInput(e) => BpmnJsonElementView::DataInput(e.spec_to_json()),
            ProcessElementView::DataOutput(e) => BpmnJsonElementView::DataOutput(e.spec_to_json()),
            ProcessElementView::DataObjectReference(e) => BpmnJsonElementView::DataObjectReference(e.spec_to_json()),
            ProcessElementView::CallActivity(e) => BpmnJsonElementView::CallActivity(e.spec_to_json()),
        }
    }
}

/// The element that a JSON element describes; a sequence flow is no element.
pub open spec fn spec_element_from_json(json: BpmnJsonElementView) -> Option<ProcessElementView> {
    match json {
        BpmnJsonElementView::StartEvent(e) => Some(ProcessElementView::StartEvent(StartEvent::spec_from_json(e))),
        BpmnJsonElementView::EndEvent(e) => Some(ProcessElementView::EndEvent(EndEvent::spec_from_json(e))),
        BpmnJsonElementView::IntermediateCatchEvent(e) => Some(ProcessElementView::IntermediateCatchEvent(IntermediateCatchEvent::spec_from_json(e))),
        BpmnJsonElementView::IntermediateThrowEvent(e) => Some(ProcessElementView::IntermediateThrowEvent(IntermediateThrowEvent::spec_from_json(e))),
        BpmnJsonElementView::ServiceTask(e) => Some(ProcessElementView::ServiceTask(ServiceTask::spec_from_json(e))),
        BpmnJsonElementView::UserTask(e) => Some(ProcessElementView::UserTask(UserTask::spec_from_json(e))),
        BpmnJsonElementView::ScriptTask(e) => Some(ProcessElementView::ScriptTask(ScriptTask::spec_from_json(e))),
        BpmnJsonElementView::ManualTask(e) => Some(ProcessElementView::ManualTask(ManualTask::spec_from_json(e))),
        BpmnJsonElementView::ExclusiveGateway(e) => Some(ProcessElementView::ExclusiveGateway(ExclusiveGateway::spec_from_json(e))),
        BpmnJsonElementView::ParallelGateway(e) => Some(ProcessElementView::ParallelGateway(ParallelGateway::spec_from_json(e))),
        BpmnJsonElementView::InclusiveGateway(e) => Some(ProcessElementView::InclusiveGateway(InclusiveGateway::spec_from_json(e))),
        BpmnJsonElementView::DataObject(e) => Some(ProcessElementView::DataObject(DataObject::spec_from_json(e))),
        BpmnJsonElementView::DataInput(e) => Some(ProcessElementView::DataInput(DataInput::spec_from_json(e))),
        BpmnJsonElementView::DataOutput(e) => Some(ProcessElementView::DataOutput(DataOutput::spec_from_json(e))),
        BpmnJsonElementView::DataObjectReference(e) => Some(ProcessElementView::DataObjectReference(DataObjectReference::spec_from_json(e))),
        BpmnJsonElementView::CallActivity(e) => Some(ProcessElementView::CallActivity(CallActivity::spec_from_json(e))),
        BpmnJsonElementView::SequenceFlow(_) => None,
    }
}

impl Clone for ProcessElement {
    fn clone(&self) -> (r: Self)
        ensures
            r@ == self@,
    {
        match self {
            ProcessElement::StartEvent(e) => ProcessElement::StartEvent(e.clone()),
            ProcessElement::EndEvent(e) => ProcessElement::EndEvent(e.clone()),
            ProcessElement::IntermediateCatchEvent(e) => ProcessElement::IntermediateCatchEvent(e.clone()),
            ProcessElement::IntermediateThrowEvent(e) => ProcessElement::IntermediateThrowEvent(e.clone()),
            ProcessElement::ServiceTask(e) => ProcessElement::ServiceTask(e.clone()),
            ProcessElement::UserTask(e) => ProcessElement::UserTask(e.clone()),
            ProcessElement::ScriptTask(e) => ProcessElement::ScriptTask(e.clone()),
            ProcessElement::ManualTask(e) => ProcessElement::ManualTask(e.clone()),
            ProcessElement::ExclusiveGateway(e) => ProcessElement::ExclusiveGateway(e.clone()),
            ProcessElement::ParallelGateway(e) => ProcessElement::ParallelGateway(e.clone()),
            ProcessElement::InclusiveGateway(e) => ProcessElement::InclusiveGateway(e.clone()),
            ProcessElement::DataObject(e) => ProcessElement::DataObject(e.clone()),
            ProcessElement::DataInput(e) => ProcessElement::DataInput(e.clone()),
            ProcessElement::DataOutput(e) => ProcessElement::DataOutput(e.clone()),
            ProcessElement::DataObjectReference(e) => ProcessElement::DataObjectReference(e.clone()),
            ProcessElement::CallActivity(e) => ProcessElement::CallActivity(e.clone()),
        }
    }
}

impl ProcessElement {
    /// The element that `element` describes. A sequence flow is refused:
    /// flows are held apart from elements.
    pub fn from_json_element(element: BpmnJsonElement) -> (r: Result<Self, ParseError>)
        ensures
            match spec_element_from_json(element@) {
                Some(v) => r matches Ok(e) && e@ == v,
                None => r matches Err(ParseError::Json(m)) && m@ == "SequenceFlow should be handled separately"@,
            },
    {
        match element {
            BpmnJsonElement::StartEvent(e) => Ok(ProcessElement::StartEvent(StartEvent::from_json(e))),
            BpmnJsonElement::EndEvent(e) => Ok(ProcessElement::EndEvent(EndEvent::from_json(e))),
            BpmnJsonElement::IntermediateCatchEvent(e) => Ok(ProcessElement::IntermediateCatchEvent(IntermediateCatchEvent::from_json(e))),
            BpmnJsonElement::IntermediateThrowEvent(e) => Ok(ProcessElement::IntermediateThrowEvent(IntermediateThrowEvent::from_json(e))),
            BpmnJsonElement::ServiceTask(e) => Ok(ProcessElement::ServiceTask(ServiceTask::from_json(e))),
            BpmnJsonElement::UserTask(e) => Ok(ProcessElement::UserTask(UserTask::from_json(e))),
            BpmnJsonElement::ScriptTask(e) => Ok(ProcessElement::ScriptTask(ScriptTask::from_json(e))),
            BpmnJsonElement::ManualTask(e) => Ok(ProcessElement::ManualTask(ManualTask::from_json(e))),
            BpmnJsonElement::ExclusiveGateway(e) => Ok(ProcessElement::ExclusiveGateway(ExclusiveGateway::from_json(e))),
            BpmnJsonElement::ParallelGateway(e) => Ok(ProcessElement::ParallelGateway(ParallelGateway::from_json(e))),
            BpmnJsonElement::InclusiveGateway(e) => Ok(ProcessElement::InclusiveGateway(InclusiveGateway::from_json(e))),
            BpmnJsonElement::DataObject(e) => Ok(ProcessElement::DataObject(DataObject::from_json(e))),
            BpmnJsonElement::DataInput(e) => Ok(ProcessElement::DataInput(DataInput::from_json(e))),
            BpmnJsonElement::DataOutput(e) => Ok(ProcessElement::DataOutput(DataOutput::from_json(e))),
            BpmnJsonElement::DataObjectReference(e) => Ok(ProcessElement::DataObjectReference(DataObjectReference::from_json(e))),
            BpmnJsonElement::CallActivity(e) => Ok(ProcessElement::CallActivity(CallActivity::from_json(e))),
            BpmnJsonElement::SequenceFlow(_) => Err(
                ParseError::Json("SequenceFlow should be handled separately".to_owned()),
            ),
        }
    }

    /// The element's ID.
    pub fn id(&self) -> (r: &str)
        ensures
            r@ == self@.id()@,
    {
        match self {
            ProcessElement::StartEvent(e) => e.base.id.as_str(),
            ProcessElement::EndEvent(e) => e.base.id.as_str(),
            ProcessElement::IntermediateCatchEvent(e) => e.base.id.as_str(),
            ProcessElement::IntermediateThrowEvent(e) => e.base.id.as_str(),
            ProcessElement::ServiceTask(e) => e.base.id.as_str(),
            ProcessElement::UserTask(e) => e.base.id.as_str(),
            ProcessElement::ScriptTask(e) => e.base.id.as_str(),
            ProcessElement::ManualTask(e) => e.base.id.as_str(),
            ProcessElement::ExclusiveGateway(e) => e.base.id.as_str(),
            ProcessElement::ParallelGateway(e) => e.base.id.as_str(),
            ProcessElement::InclusiveGateway(e) => e.base.id.as_str(),
            ProcessElement::DataObject(e) => e.base.id.as_str(),
            ProcessElement::DataInput(e) => e.base.id.as_str(),
            ProcessElement::DataOutput(e) => e.base.id.as_str(),
            ProcessElement::DataObjectReference(e) => e.base.id.as_str(),
            ProcessElement::CallActivity(e) => e.base.id.as_str(),
        }
    }

    /// The element's JSON form.
    pub fn to_json_element(&self) -> (r: BpmnJsonElement)
        ensures
            r@ == self@.spec_to_json_element(),
    {
        match self {
            ProcessElement::StartEvent(e) => BpmnJsonElement::StartEvent(e.to_json()),
            ProcessElement::EndEvent(e) => BpmnJsonElement::EndEvent(e.to_json()),
            ProcessElement::IntermediateCatchEvent(e) => BpmnJsonElement::IntermediateCatchEvent(e.to_json()),
            ProcessElement::IntermediateThrowEvent(e) => BpmnJsonElement::IntermediateThrowEvent(e.to_json()),
            ProcessElement::ServiceTask(e) => BpmnJsonElement::ServiceTask(e.to_json()),
            ProcessElement::UserTask(e) => BpmnJsonElement::UserTask(e.to_json()),
            ProcessElement::ScriptTask(e) => BpmnJsonElement::ScriptTask(e.to_json()),
            ProcessElement::ManualTask(e) => BpmnJsonElement::ManualTask(e.to_json()),
            ProcessElement::ExclusiveGateway(e) => BpmnJsonElement::ExclusiveGateway(e.to_json()),
            ProcessElement::ParallelGateway(e) => BpmnJsonElement::ParallelGateway(e.to_json()),
            ProcessElement::InclusiveGateway(e) => BpmnJsonElement::InclusiveGateway(e.to_json()),
            ProcessElement::DataObject(e) => BpmnJsonElement::DataObject(e.to_json()),
            ProcessElement::DataInput(e) => BpmnJsonElement::DataInput(e.to_json()),
            ProcessElement::DataOutput(e) => BpmnJsonElement::DataOutput(e.to_json()),
            ProcessElement::DataObjectReference(e) => BpmnJsonElement::DataObjectReference(e.to_json()),
            ProcessElement::CallActivity(e) => BpmnJsonElement::CallActivity(e.to_json()),
        }
    }
}

/// The key of a process element: its ID.
pub open spec fn element_key() -> spec_fn(ProcessElementView) -> Seq<char> {
    |e: ProcessElementView| e.id()@
}

/// The key of a sequence flow: its ID.
pub open spec fn flow_key() -> spec_fn(SequenceFlow) -> Seq<char> {
    |f: SequenceFlow| f.id@
}

/// The key of a variable entry.
pub open spec fn variable_key() -> spec_fn((String, VariableView)) -> Seq<char> {
    |p: (String, VariableView)| p.0@
}

/// Whether a flow leaves the element with ID `id`.
pub open spec fn leaves(id: Seq<char>) -> spec_fn(SequenceFlow) -> bool {
    |f: SequenceFlow| f.source_ref@ == id
}

/// Whether a flow enters the element with ID `id`.
pub open spec fn enters(id: Seq<char>) -> spec_fn(SequenceFlow) -> bool {
    |f: SequenceFlow| f.target_ref@ == id
}

/// Process Definition
#[derive(Debug)]
pub struct ProcessDefinition {
    /// Process ID
    pub id: String,
    /// Process name
    pub name: Option<String>,
    /// Process type
    pub process_type: String,
    /// Is executable
    pub is_executable: bool,
    /// Process elements, keyed by their IDs
    pub elements: Vec<ProcessElement>,
    /// Sequence flows, keyed by their IDs
    pub flows: Vec<SequenceFlow>,
    /// Variables, by key
    pub variables: Vec<(String, Variable)>,
}

/// The content of a process definition.
pub struct ProcessDefinitionView {
    pub id: String,
    pub name: Option<String>,
    pub process_type: String,
    pub is_executable: bool,
    pub elements: Seq<ProcessElementView>,
    pub flows: Seq<SequenceFlow>,
    pub variables: Seq<(String, VariableView)>,
}

/// The contents of a sequence of elements.
pub open spec fn elements_view(s: Seq<ProcessElement>) -> Seq<ProcessElementView> {
    s.map_values(|e: ProcessElement| e@)
}

/// The contents of a sequence of variable entries.
pub open spec fn variables_view(s: Seq<(String, Variable)>) -> Seq<(String, VariableView)> {
    s.map_values(|p: (String, Variable)| (p.0, p.1@))
}

impl View for ProcessDefinition {
    type V = ProcessDefinitionView;

    open spec fn view(&self) -> ProcessDefinitionView {
        ProcessDefinitionView {
            id: self.id,
            name: self.name,
            process_type: self.process_type,
            is_executable: self.is_executable,
            elements: elements_view(self.elements@),
            flows: self.flows@,
            variables: variables_view(self.variables@),
        }
    }
}

/// The JSON form of an element, as a function.
pub open spec fn element_json() -> spec_fn(ProcessElementView) -> BpmnJsonElementView {
    |e: ProcessElementView| e.spec_to_json_element()
}

/// The JSON form of a flow, as a function.
pub open spec fn flow_json() -> spec_fn(SequenceFlow) -> BpmnJsonElementView {
    |f: SequenceFlow| BpmnJsonElementView::SequenceFlow(f.spec_to_json())
}

/// The JSON form of a variable entry, as a function.
pub open spec fn variable_json() -> spec_fn((String, VariableView)) -> (String, BpmnJsonVariableView) {
    |p: (String, VariableView)| (p.0, BpmnJsonVariableView {
        name: p.1.name,
        variable_type: p.1.variable_type,
        default_value: p.1.default_value,
    })
}

/// The elements and flows that the JSON elements `elems` give, taken in
/// order: a later element or flow replaces an earlier one with its ID.
pub open spec fn definition_parts(elems: Seq<BpmnJsonElementView>) -> (Seq<ProcessElementView>, Seq<SequenceFlow>)
    decreases elems.len(),
{
    if elems.len() == 0 {
        (Seq::empty(), Seq::empty())
    } else {
        let prev = definition_parts(elems.drop_last());
        match elems.last() {
            BpmnJsonElementView::SequenceFlow(f) => (prev.0, upsert(prev.1, flow_key(), SequenceFlow::spec_from_json(f))),
            e => (upsert(prev.0, element_key(), spec_element_from_json(e).unwrap()), prev.1),
        }
    }
}

/// The variables that the JSON variables `vars` give; a later entry replaces
/// an earlier one with its key.
pub open spec fn definition_variables(vars: Seq<(String, BpmnJsonVariableView)>) -> Seq<(String, VariableView)>
    decreases vars.len(),
{
    if vars.len() == 0 {
        Seq::empty()
    } else {
        let p = vars.last();
        upsert(definition_variables(vars.drop_last()), variable_key(), (p.0, Variable::spec_from_json(p.1)))
    }
}

/// The process definition that `json` describes.
pub open spec fn spec_from_bpmn_json(json: BpmnJsonProcessView) -> ProcessDefinitionView {
    ProcessDefinitionView {
        id: json.id,
        name: json.name,
        process_type: json.process_type,
        is_executable: json.is_executable,
        elements: definition_parts(json.elements).0,
        flows: definition_parts(json.elements).1,
        variables: definition_variables(json.variables),
    }
}

impl ProcessDefinitionView {
    /// The JSON form of this definition: its elements, then its flows.
    pub open spec fn spec_to_bpmn_json(self) -> BpmnJsonProcessView {
        BpmnJsonProcessView {
            id: self.id,
            name: self.name,
            process_type: self.process_type,
            is_executable: self.is_executable,
            elements: self.elements.map_values(element_json())
                + self.flows.map_values(flow_json()),
            variables: self.variables.map_values(variable_json()),
        }
    }

    /// The element with ID `id`, if any.
    pub open spec fn element(self, id: Seq<char>) -> Option<ProcessElementView> {
        lookup(self.elements, element_key(), id)
    }

    /// The flow with ID `id`, if any.
    pub open spec fn flow(self, id: Seq<char>) -> Option<SequenceFlow> {
        lookup(self.flows, flow_key(), id)
    }

    /// The flows that leave the element with ID `id`, in order.
    pub open spec fn outgoing(self, id: Seq<char>) -> Seq<SequenceFlow> {
        self.flows.filter(leaves(id))
    }

    /// The flows that enter the element with ID `id`, in order.
    pub open spec fn incoming(self, id: Seq<char>) -> Seq<SequenceFlow> {
        self.flows.filter(enters(id))
    }
}

/// Puts `e` in place of the element with its ID, or adds it.
pub(crate) fn upsert_element(v: &mut Vec<ProcessElement>, e: ProcessElement)
    ensures
        elements_view(final(v)@) == upsert(elements_view(old(v)@), element_key(), e@),
{
    let ghost s = elements_view(v@);
    let ghost p = same_key(element_key(), e@.id()@);
    let mut i: usize = 0;
    while i < v.len()
        invariant
            s == elements_view(v@),
            v@ == old(v)@,
            p == same_key(element_key(), e@.id()@),
            i <= v.len(),
            forall|j: int| 0 <= j < i ==> !p(#[trigger] s[j]),
        decreases v.len() - i,
    {
        if str_eq(v[i].id(), e.id()) {
            proof {
                assert(s[i as int] == v@[i as int]@);
                assert(p(s[i as int]));
                assert(element_key()(e@) == e@.id()@);
                lemma_first_match_at(s, p, i as int);
                assert(first_match(s, same_key(element_key(), element_key()(e@))) == Some(i as int));
            }
            v.set(i, e);
            proof {
                assert(elements_view(v@) =~= s.update(i as int, e@));
            }
            return;
        }
        i = i + 1;
    }
    proof {
        lemma_first_match_none(s, p);
    }
    v.push(e);
    proof {
        assert(elements_view(v@) =~= s.push(e@));
    }
}

/// Puts `f` in place of the flow with its ID, or adds it.
pub(crate) fn upsert_flow(v: &mut Vec<SequenceFlow>, f: SequenceFlow)
    ensures
        final(v)@ == upsert(old(v)@, flow_key(), f),
{
    let ghost s = v@;
    let ghost p = same_key(flow_key(), f.id@);
    let mut i: usize = 0;
    while i < v.len()
        invariant
            s == v@,
            v@ == old(v)@,
            p == same_key(flow_key(), f.id@),
            i <= v.len(),
            forall|j: int| 0 <= j < i ==> !p(#[trigger] s[j]),
        decreases v.len() - i,
    {
        if v[i].id == f.id {
            proof {
                lemma_first_match_at(s, p, i as int);
            }
            v.set(i, f);
            return;
        }
        i = i + 1;
    }
    proof {
        lemma_first_match_none(s, p);
    }
    v.push(f);
}

/// Puts the entry `e` in place of the entry with its key, or adds it.
fn upsert_variable(v: &mut Vec<(String, Variable)>, e: (String, Variable))
    ensures
        variables_view(final(v)@) == upsert(variables_view(old(v)@), variable_key(), (e.0, e.1@)),
{
    let ghost s = variables_view(v@);
    let ghost p = same_key(variable_key(), e.0@);
    let mut i: usize = 0;
    while i < v.len()
        invariant
            s == variables_view(v@),
            v@ == old(v)@,
            p == same_key(variable_key(), e.0@),
            i <= v.len(),
            forall|j: int| 0 <= j < i ==> !p(#[trigger] s[j]),
        decreases v.len() - i,
    {
        if v[i].0 == e.0 {
            proof {
                lemma_first_match_at(s, p, i as int);
            }
            v.set(i, e);
            proof {
                assert(variables_view(v@) =~= s.update(i as int, (e.0, e.1@)));
            }
            return;
        }
        i = i + 1;
    }
    proof {
        lemma_first_match_none(s, p);
    }
    v.push(e);
    proof {
        assert(variables_view(v@) =~= s.push((e.0, e.1@)));
    }
}

impl Clone for Variable {
    fn clone(&self) -> (r: Self)
        ensures
            r@ == self@,
    {
        Variable {
            name: self.name.clone(),
            variable_type: clone_opt_string(&self.variable_type),
            default_value: match &self.default_value {
                Some(v) => Some(clone_json(v)),
                None => None,
            },
        }
    }
}

impl Clone for ProcessDefinition {
    fn clone(&self) -> (r: Self)
        ensures
            r@ == self@,
    {
        let mut elements: Vec<ProcessElement> = Vec::new();
        for i in 0..self.elements.len()
            invariant
                elements.len() == i,
                forall|j: int| 0 <= j < i ==> #[trigger] elements@[j]@ == self.elements@[j]@,
        {
            elements.push(self.elements[i].clone());
        }
        let mut flows: Vec<SequenceFlow> = Vec::new();
        for i in 0..self.flows.len()
            invariant
                flows.len() == i,
                forall|j: int| 0 <= j < i ==> #[trigger] flows@[j] == self.flows@[j],
        {
            flows.push(self.flows[i].clone());
        }
        let mut variables: Vec<(String, Variable)> = Vec::new();
        for i in 0..self.variables.len()
            invariant
                variables.len() == i,
                forall|j: int|
                    0 <= j < i ==> (#[trigger] variables@[j]).0 == self.variables@[j].0 && variables@[j].1@
                        == self.variables@[j].1@,
        {
            variables.push((self.variables[i].0.clone(), self.variables[i].1.clone()));
        }
        let r = ProcessDefinition {
            id: self.id.clone(),
            name: clone_opt_string(&self.name),
            process_type: self.process_type.clone(),
            is_executable: self.is_executable,
            elements,
            flows,
            variables,
        };
        proof {
            assert(r@.elements =~= self@.elements);
            assert(r@.flows =~= self@.flows);
            assert(r@.variables =~= self@.variables);
        }
        r
    }
}

impl ProcessDefinition {
    /// Parses a process definition from BPMN 2.0 XML.
    pub fn from_xml(xml: &str) -> (r: Result<Self, ParseError>)
        ensures
            match xml_result(xml_events(xml@).0, xml_events(xml@).1) {
                Ok(st) => r matches Ok(d) && definition_is(d@, st),
                Err(m) => r matches Err(ParseError::Xml(e)) && e@ == m,
            },
    {
        parse_bpmn_xml(xml)
    }

    /// Serializes the process definition as BPMN 2.0 XML.
    pub fn to_xml(&self) -> (r: Result<String, SerializeError>)
        ensures
            r matches Ok(s) && s@ == serialized(self@),
    {
        serialize_bpmn_xml(self)
    }
}

impl ProcessDefinition {
    /// Builds a process definition from its JSON form. Elements and flows are
    /// keyed by their IDs, and a later one replaces an earlier one with the
    /// same ID; variables likewise by their keys.
    pub fn from_bpmn_json(json_process: BpmnJsonProcess) -> (r: Result<Self, ParseError>)
        ensures
            r matches Ok(d) && d@ == spec_from_bpmn_json(json_process@),
    {
        let ghost jv = json_process@;
        let ghost orig = json_process.elements@;
        let mut elements: Vec<ProcessElement> = Vec::new();
        let mut flows: Vec<SequenceFlow> = Vec::new();
        for element in it: json_process.elements
            invariant
                it.seq() == orig,
                jv.elements == orig.map_values(|e: BpmnJsonElement| e@),
                (elements_view(elements@), flows@) == definition_parts(
                    orig.take(it.index() as int).map_values(|e: BpmnJsonElement| e@),
                ),
        {
            let ghost idx = it.index();
            proof {
                assert(orig.take(idx + 1).map_values(|e: BpmnJsonElement| e@).drop_last()
                    =~= orig.take(idx as int).map_values(|e: BpmnJsonElement| e@));
                assert(orig.take(idx + 1).map_values(|e: BpmnJsonElement| e@).last() == element@);
            }
            match element {
                BpmnJsonElement::SequenceFlow(flow) => {
                    let seq_flow = SequenceFlow::from_json(flow);
                    upsert_flow(&mut flows, seq_flow);
                },
                _ => {
                    let ghost ev = element@;
                    match ProcessElement::from_json_element(element) {
                        Ok(process_elem) => {
                            upsert_element(&mut elements, process_elem);
                        },
                        Err(_) => {
                            assert(false);
                        },
                    }
                },
            }
        }
        proof {
            assert(orig.take(orig.len() as int) =~= orig);
        }
        let ghost jvars = json_process.variables@;
        let mut variables: Vec<(String, Variable)> = Vec::new();
        for entry in it: json_process.variables
            invariant
                it.seq() == jvars,
                jv.variables == jvars.map_values(|p: (String, BpmnJsonVariable)| (p.0, p.1@)),
                variables_view(variables@) == definition_variables(
                    jvars.take(it.index() as int).map_values(|p: (String, BpmnJsonVariable)| (p.0, p.1@)),
                ),
        {
            let ghost idx = it.index();
            proof {
                assert(jvars.take(idx + 1).map_values(|p: (String, BpmnJsonVariable)| (p.0, p.1@)).drop_last()
                    =~= jvars.take(idx as int).map_values(|p: (String, BpmnJsonVariable)| (p.0, p.1@)));
            }
            let (k, v) = entry;
            upsert_variable(&mut variables, (k, Variable::from_json(v)));
        }
        proof {
            assert(jvars.take(jvars.len() as int) =~= jvars);
        }
        Ok(Self {
            id: json_process.id,
            name: json_process.name,
            process_type: json_process.process_type,
            is_executable: json_process.is_executable,
            elements,
            flows,
            variables,
        })
    }

    /// The JSON form of this definition: its elements, then its flows, then
    /// its variables, each in the order the definition holds them.
    pub fn to_bpmn_json(&self) -> (r: BpmnJsonProcess)
        ensures
            r@ == self@.spec_to_bpmn_json(),
    {
        let mut json_elements: Vec<BpmnJsonElement> = Vec::new();
        let ghost ev = self@.elements;
        for i in 0..self.elements.len()
            invariant
                ev == elements_view(self.elements@),
                json_elements@.map_values(|e: BpmnJsonElement| e@)
                    == ev.take(i as int).map_values(element_json()),
        {
            let ghost idx = i as int;
            let ghost before = json_elements@;
            let x = self.elements[i].to_json_element();
            json_elements.push(x);
            proof {
                lemma_take_next(ev, idx);
                lemma_map_push(before, x, |e: BpmnJsonElement| e@);
                lemma_map_push(ev.take(idx), ev[idx], element_json());
            }
        }
        proof {
            assert(ev.take(ev.len() as int) =~= ev);
        }
        let ghost fv = self.flows@;
        let ghost head = json_elements@.map_values(|e: BpmnJsonElement| e@);
        for i in 0..self.flows.len()
            invariant
                fv == self.flows@,
                json_elements@.map_values(|e: BpmnJsonElement| e@) == head
                    + fv.take(i as int).map_values(flow_json()),
        {
            let ghost idx = i as int;
            let ghost before = json_elements@;
            let x = BpmnJsonElement::SequenceFlow(self.flows[i].to_json());
            json_elements.push(x);
            proof {
                lemma_take_next(fv, idx);
                lemma_map_push(before, x, |e: BpmnJsonElement| e@);
                lemma_map_push(fv.take(idx), fv[idx], flow_json());
                assert(json_elements@.map_values(|e: BpmnJsonElement| e@) =~= head
                    + fv.take(idx + 1).map_values(flow_json()));
            }
        }
        proof {
            assert(fv.take(fv.len() as int) =~= fv);
        }
        let mut json_variables: Vec<(String, BpmnJsonVariable)> = Vec::new();
        let ghost vv = variables_view(self.variables@);
        for i in 0..self.variables.len()
            invariant
                vv == variables_view(self.variables@),
                json_variables@.map_values(|p: (String, BpmnJsonVariable)| (p.0, p.1@))
                    == vv.take(i as int).map_values(variable_json()),
        {
            let ghost idx = i as int;
            let ghost before = json_variables@;
            let entry = &self.variables[i];
            let x = (entry.0.clone(), entry.1.to_json());
            json_variables.push(x);
            proof {
                lemma_take_next(vv, idx);
                lemma_map_push(before, x, |p: (String, BpmnJsonVariable)| (p.0, p.1@));
                lemma_map_push(vv.take(idx), vv[idx], variable_json());
            }
        }
        proof {
            assert(vv.take(vv.len() as int) =~= vv);
        }
        let r = BpmnJsonProcess {
            id: self.id.clone(),
            name: clone_opt_string(&self.name),
            process_type: self.process_type.clone(),
            is_executable: self.is_executable,
            elements: json_elements,
            variables: json_variables,
        };
        proof {
            assert(r@.elements =~= self@.spec_to_bpmn_json().elements);
            assert(r@.variables =~= self@.spec_to_bpmn_json().variables);
        }
        r
    }

    /// The element with ID `id`, if any.
    pub fn get_element(&self, id: &str) -> (r: Option<&ProcessElement>)
        ensures
            match r {
                Some(e) => self@.element(id@) == Some(e@),
                None => self@.element(id@) is None,
            },
    {
        let ghost s = self@.elements;
        let ghost p = same_key(element_key(), id@);
        let mut i: usize = 0;
        while i < self.elements.len()
            invariant
                s == self@.elements,
                p == same_key(element_key(), id@),
                i <= self.elements.len(),
                forall|j: int| 0 <= j < i ==> !p(#[trigger] s[j]),
            decreases self.elements.len() - i,
        {
            if str_eq(self.elements[i].id(), id) {
                proof {
                    assert(s[i as int] == self.elements@[i as int]@);
                    lemma_first_match_at(s, p, i as int);
                }
                return Some(&self.elements[i]);
            }
            i = i + 1;
        }
        proof {
            lemma_first_match_none(s, p);
        }
        None
    }

    /// The sequence flow with ID `id`, if any.
    pub fn get_flow(&self, id: &str) -> (r: Option<&SequenceFlow>)
        ensures
            match r {
                Some(f) => self@.flow(id@) == Some(*f),
                None => self@.flow(id@) is None,
            },
    {
        let ghost s = self@.flows;
        let ghost p = same_key(flow_key(), id@);
        let mut i: usize = 0;
        while i < self.flows.len()
            invariant
                s == self@.flows,
                p == same_key(flow_key(), id@),
                i <= self.flows.len(),
                forall|j: int| 0 <= j < i ==> !p(#[trigger] s[j]),
            decreases self.flows.len() - i,
        {
            if str_eq(self.flows[i].id.as_str(), id) {
                proof {
                    lemma_first_match_at(s, p, i as int);
                }
                return Some(&self.flows[i]);
            }
            i = i + 1;
        }
        proof {
            lemma_first_match_none(s, p);
        }
        None
    }

    /// The flows that leave the element with ID `element_id`, in the order
    /// the definition holds them.
    pub fn get_outgoing_flows(&self, element_id: &str) -> (r: Vec<&SequenceFlow>)
        ensures
            r@.map_values(|f: &SequenceFlow| *f) == self@.outgoing(element_id@),
    {
        let mut r: Vec<&SequenceFlow> = Vec::new();
        let ghost fv = self.flows@;
        for i in 0..self.flows.len()
            invariant
                fv == self.flows@,
                r@.map_values(|f: &SequenceFlow| *f) == fv.take(i as int).filter(leaves(element_id@)),
        {
            let ghost before = r@;
            proof {
                lemma_take_next(fv, i as int);
                lemma_filter_push(fv.take(i as int), leaves(element_id@), fv[i as int]);
            }
            if str_eq(self.flows[i].source_ref.as_str(), element_id) {
                r.push(&self.flows[i]);
                proof {
                    lemma_map_push(before, &self.flows[i as int], |f: &SequenceFlow| *f);
                }
            }
        }
        proof {
            assert(fv.take(fv.len() as int) =~= fv);
        }
        r
    }

    /// The flows that enter the element with ID `element_id`, in the order
    /// the definition holds them.
    pub fn get_incoming_flows(&self, element_id: &str) -> (r: Vec<&SequenceFlow>)
        ensures
            r@.map_values(|f: &SequenceFlow| *f) == self@.incoming(element_id@),
    {
        let mut r: Vec<&SequenceFlow> = Vec::new();
        let ghost fv = self.flows@;
        for i in 0..self.flows.len()
            invariant
                fv == self.flows@,
                r@.map_values(|f: &SequenceFlow| *f) == fv.take(i as int).filter(enters(element_id@)),
        {
            let ghost before = r@;
            proof {
                lemma_take_next(fv, i as int);
                lemma_filter_push(fv.take(i as int), enters(element_id@), fv[i as int]);
            }
            if str_eq(self.flows[i].target_ref.as_str(), element_id) {
                r.push(&self.flows[i]);
                proof {
                    lemma_map_push(before, &self.flows[i as int], |f: &SequenceFlow| *f);
                }
            }
        }
        proof {
            assert(fv.take(fv.len() as int) =~= fv);
        }
        r
    }
}

/// Reading back an element's JSON form gives the element.
pub proof fn law_element_json_round_trip(e: ProcessElementView)
    ensures
        spec_element_from_json(e.spec_to_json_element()) == Some(e),
{
    match e {
        ProcessElementView::ServiceTask(t) => {
            let m = io_mapping_from_json(io_mapping_to_json(t.io_mapping));
            assert(m.input_parameters =~= t.io_mapping.input_parameters);
            assert(m.output_parameters =~= t.io_mapping.output_parameters);
            assert(m == t.io_mapping);
            assert(opt_loop_from_json(opt_loop_to_json(t.loop_characteristics)) == t.loop_characteristics);
            assert(ServiceTask::spec_from_json(t.spec_to_json()) == t);
        },
        ProcessElementView::CallActivity(t) => {
            let j = t.spec_to_json();
            assert(CallActivity::spec_from_json(j).data_input_associations =~= t.data_input_associations);
            assert(CallActivity::spec_from_json(j).data_output_associations =~= t.data_output_associations);
            assert(CallActivity::spec_from_json(j) == t);
        },
        _ => {},
    }
}

/// Whether no two elements of `s` have the same key.
pub open spec fn distinct_keys<A>(s: Seq<A>, key: spec_fn(A) -> Seq<char>) -> bool {
    forall|i: int, j: int| 0 <= i < j < s.len() ==> key(#[trigger] s[i]) != key(#[trigger] s[j])
}

/// Whether the elements, the flows and the variables of `d` each have
/// distinct keys, as maps keyed by them do.
pub open spec fn distinct_ids(d: ProcessDefinitionView) -> bool {
    &&& distinct_keys(d.elements, element_key())
    &&& distinct_keys(d.flows, flow_key())
    &&& distinct_keys(d.variables, variable_key())
}

/// Inserting by key keeps the keys distinct.
pub(crate) proof fn lemma_upsert_distinct<A>(s: Seq<A>, key: spec_fn(A) -> Seq<char>, x: A)
    requires
        distinct_keys(s, key),
    ensures
        distinct_keys(upsert(s, key, x), key),
{
    let p = same_key(key, key(x));
    lemma_first_match(s, p);
    let t = upsert(s, key, x);
    match first_match(s, p) {
        Some(m) => {
            assert forall|i: int, j: int| 0 <= i < j < t.len() implies key(#[trigger] t[i]) != key(#[trigger] t[j]) by {
                if i == m {
                    assert(key(s[m]) == key(x));
                } else if j == m {
                    assert(key(s[m]) == key(x));
                }
            }
        },
        None => {
            assert forall|i: int, j: int| 0 <= i < j < t.len() implies key(#[trigger] t[i]) != key(#[trigger] t[j]) by {
                if j == s.len() {
                    assert(!p(s[i]));
                }
            }
        },
    }
}

/// An element whose key no element of `s` has is added at the end.
proof fn lemma_upsert_fresh<A>(s: Seq<A>, key: spec_fn(A) -> Seq<char>, x: A)
    requires
        forall|j: int| 0 <= j < s.len() ==> key(#[trigger] s[j]) != key(x),
    ensures
        upsert(s, key, x) == s.push(x),
{
    lemma_first_match_none(s, same_key(key, key(x)));
}

/// The parts read from JSON elements have distinct keys.
proof fn lemma_parts_distinct(elems: Seq<BpmnJsonElementView>)
    ensures
        distinct_keys(definition_parts(elems).0, element_key()),
        distinct_keys(definition_parts(elems).1, flow_key()),
    decreases elems.len(),
{
    if elems.len() > 0 {
        lemma_parts_distinct(elems.drop_last());
        let prev = definition_parts(elems.drop_last());
        match elems.last() {
            BpmnJsonElementView::SequenceFlow(f) => {
                lemma_upsert_distinct(prev.1, flow_key(), SequenceFlow::spec_from_json(f));
            },
            e => {
                lemma_upsert_distinct(prev.0, element_key(), spec_element_from_json(e).unwrap());
            },
        }
    }
}

/// The variables read from JSON have distinct keys.
proof fn lemma_variables_distinct(vars: Seq<(String, BpmnJsonVariableView)>)
    ensures
        distinct_keys(definition_variables(vars), variable_key()),
    decreases vars.len(),
{
    if vars.len() > 0 {
        lemma_variables_distinct(vars.drop_last());
        let p = vars.last();
        lemma_upsert_distinct(
            definition_variables(vars.drop_last()),
            variable_key(),
            (p.0, Variable::spec_from_json(p.1)),
        );
    }
}

/// A definition read from JSON has distinct element, flow and variable IDs:
/// a later entry with an ID replaces an earlier one.
pub proof fn law_json_definition_ids_distinct(json: BpmnJsonProcessView)
    ensures
        distinct_ids(spec_from_bpmn_json(json)),
{
    lemma_parts_distinct(json.elements);
    lemma_variables_distinct(json.variables);
}

/// Reading back the JSON forms of the first `k` elements of `es` gives
/// those elements and no flow.
proof fn lemma_parts_of_elements(es: Seq<ProcessElementView>, k: int)
    requires
        distinct_keys(es, element_key()),
        0 <= k <= es.len(),
    ensures
        definition_parts(es.take(k).map_values(element_json())) == (es.take(k), Seq::<SequenceFlow>::empty()),
    decreases k,
{
    if k == 0 {
        assert(es.take(0).map_values(element_json()) =~= Seq::<BpmnJsonElementView>::empty());
        assert(es.take(0) =~= Seq::<ProcessElementView>::empty());
    } else {
        lemma_parts_of_elements(es, k - 1);
        let xs = es.take(k).map_values(element_json());
        assert(xs.drop_last() =~= es.take(k - 1).map_values(element_json()));
        law_element_json_round_trip(es[k - 1]);
        assert forall|j: int| 0 <= j < es.take(k - 1).len() implies element_key()(#[trigger] es.take(k - 1)[j])
            != element_key()(es[k - 1]) by {
            assert(es.take(k - 1)[j] == es[j]);
        }
        lemma_upsert_fresh(es.take(k - 1), element_key(), es[k - 1]);
        assert(es.take(k - 1).push(es[k - 1]) =~= es.take(k));
        assert(xs.last() == es[k - 1].spec_to_json_element());
    }
}

/// Reading back the JSON forms of the elements `es` and then of the first
/// `k` flows of `fs` gives those elements and flows.
proof fn lemma_parts_of_flows(es: Seq<ProcessElementView>, fs: Seq<SequenceFlow>, k: int)
    requires
        distinct_keys(es, element_key()),
        distinct_keys(fs, flow_key()),
        0 <= k <= fs.len(),
    ensures
        definition_parts(es.map_values(element_json()) + fs.take(k).map_values(flow_json())) == (es, fs.take(k)),
    decreases k,
{
    let head = es.map_values(element_json());
    if k == 0 {
        assert(head + fs.take(0).map_values(flow_json()) =~= es.take(es.len() as int).map_values(element_json()));
        lemma_parts_of_elements(es, es.len() as int);
        assert(es.take(es.len() as int) =~= es);
        assert(fs.take(0) =~= Seq::<SequenceFlow>::empty());
    } else {
        lemma_parts_of_flows(es, fs, k - 1);
        let xs = head + fs.take(k).map_values(flow_json());
        assert(xs.drop_last() =~= head + fs.take(k - 1).map_values(flow_json()));
        assert(xs.last() == BpmnJsonElementView::SequenceFlow(fs[k - 1].spec_to_json()));
        let f = fs[k - 1];
        assert(SequenceFlow::spec_from_json(f.spec_to_json()) == f) by {
            match f.condition_expression {
                Some(c) => {},
                None => {},
            }
        }
        assert forall|j: int| 0 <= j < fs.take(k - 1).len() implies flow_key()(#[trigger] fs.take(k - 1)[j])
            != flow_key()(f) by {
            assert(fs.take(k - 1)[j] == fs[j]);
        }
        lemma_upsert_fresh(fs.take(k - 1), flow_key(), f);
        assert(fs.take(k - 1).push(f) =~= fs.take(k));
    }
}

/// Reading back the JSON forms of the first `k` variables of `vs` gives
/// those variables.
proof fn lemma_variables_back(vs: Seq<(String, VariableView)>, k: int)
    requires
        distinct_keys(vs, variable_key()),
        0 <= k <= vs.len(),
    ensures
        definition_variables(vs.take(k).map_values(variable_json())) == vs.take(k),
    decreases k,
{
    if k == 0 {
        assert(vs.take(0).map_values(variable_json()) =~= Seq::<(String, BpmnJsonVariableView)>::empty());
        assert(vs.take(0) =~= Seq::<(String, VariableView)>::empty());
    } else {
        lemma_variables_back(vs, k - 1);
        let xs = vs.take(k).map_values(variable_json());
        assert(xs.drop_last() =~= vs.take(k - 1).map_values(variable_json()));
        let v = vs[k - 1];
        assert(xs.last() == variable_json()(v));
        assert((v.0, Variable::spec_from_json(variable_json()(v).1)) == v);
        assert forall|j: int| 0 <= j < vs.take(k - 1).len() implies variable_key()(#[trigger] vs.take(k - 1)[j])
            != variable_key()(v) by {
            assert(vs.take(k - 1)[j] == vs[j]);
        }
        lemma_upsert_fresh(vs.take(k - 1), variable_key(), v);
        assert(vs.take(k - 1).push(v) =~= vs.take(k));
    }
}

/// Reading back the JSON form of a definition gives the definition, when
/// its elements, flows and variables have distinct IDs (as every definition
/// read from JSON has).
pub proof fn law_definition_json_round_trip(d: ProcessDefinitionView)
    requires
        distinct_ids(d),
    ensures
        spec_from_bpmn_json(d.spec_to_bpmn_json()) == d,
{
    lemma_parts_of_flows(d.elements, d.flows, d.flows.len() as int);
    assert(d.flows.take(d.flows.len() as int) =~= d.flows);
    lemma_variables_back(d.variables, d.variables.len() as int);
    assert(d.variables.take(d.variables.len() as int) =~= d.variables);
}

/// Whether the element base `b` holds the ID, name and documentation of the
/// JSON base `j`.
pub open spec fn base_matches(b: ElementBase, j: BpmnJsonElementBase) -> bool {
    b.id == j.id && b.name == j.name && b.documentation == j.documentation
}

/// Whether the event definition `d` is of the kind of the JSON definition
/// `j`, with the same reference, time definition, name or condition.
pub open spec fn event_matches(d: Option<EventDefinition>, j: Option<BpmnJsonEventDefinition>) -> bool {
    match (d, j) {
        (None, None) => true,
        (Some(EventDefinition::Message { message_ref: a }), Some(BpmnJsonEventDefinition::Message { message_ref: b })) => a == b,
        (Some(EventDefinition::Timer { time_definition: a }), Some(BpmnJsonEventDefinition::Timer { time_definition: b })) => a == b,
        (Some(EventDefinition::Signal { signal_ref: a }), Some(BpmnJsonEventDefinition::Signal { signal_ref: b })) => a == b,
        (Some(EventDefinition::Error { error_ref: a }), Some(BpmnJsonEventDefinition::Error { error_ref: b })) => a == b,
        (Some(EventDefinition::Escalation { escalation_ref: a }), Some(BpmnJsonEventDefinition::Escalation { escalation_ref: b })) => a == b,
        (Some(EventDefinition::Cancel), Some(BpmnJsonEventDefinition::Cancel)) => true,
        (Some(EventDefinition::Compensation { activity_ref: a }), Some(BpmnJsonEventDefinition::Compensation { activity_ref: b })) => a == b,
        (Some(EventDefinition::Conditional { condition: a }), Some(BpmnJsonEventDefinition::Conditional { condition: b })) => match (a, b) {
            (None, None) => true,
            (Some(x), Some(y)) => x.language == y.language && x.body == y.body,
            _ => false,
        },
        (Some(EventDefinition::Link { name: a }), Some(BpmnJsonEventDefinition::Link { name: b })) => a == b,
        (Some(EventDefinition::Terminate), Some(BpmnJsonEventDefinition::Terminate)) => true,
        (Some(EventDefinition::Unspecified), Some(BpmnJsonEventDefinition::Unspecified)) => true,
        _ => false,
    }
}

/// Whether the loop characteristics `m` are those of the JSON ones `j`: the
/// same cardinality, completion condition and behavior, and parallel just
/// when `j` says so (sequential when it says nothing).
pub open spec fn loop_matches(m: Option<MultiInstanceLoopCharacteristics>, j: Option<BpmnJsonMultiInstanceLoopCharacteristics>) -> bool {
    match (m, j) {
        (None, None) => true,
        (Some(m), Some(j)) => (j.is_parallel == Some(m.is_parallel) || (j.is_parallel is None && !m.is_parallel))
            && m.loop_cardinality == j.loop_cardinality && m.completion_condition == j.completion_condition
            && m.behavior == j.behavior,
        _ => false,
    }
}

/// Whether the data associations `s` are the JSON ones `j`, one for one
/// and in order, with the same references and transformations.
pub open spec fn assocs_match(s: Seq<DataAssociation>, j: Seq<BpmnJsonDataAssociation>) -> bool {
    s.len() == j.len() && forall|i: int|
        #![trigger s[i]]
        0 <= i < s.len() ==> s[i].source_ref == j[i].source_ref && s[i].target_ref == j[i].target_ref
            && s[i].transformation == j[i].transformation
}

/// Whether the element `e` and the JSON element `j` are of the same kind
/// and hold the same value in each field that both have.
pub open spec fn element_matches_json(e: ProcessElementView, j: BpmnJsonElementView) -> bool {
    match (e, j) {
        (ProcessElementView::StartEvent(t), BpmnJsonElementView::StartEvent(s)) => base_matches(t.base, s.base)
            && event_matches(t.event_definition, s.event_definition),
        (ProcessElementView::EndEvent(t), BpmnJsonElementView::EndEvent(s)) => base_matches(t.base, s.base)
            && event_matches(t.event_definition, s.event_definition),
        (ProcessElementView::IntermediateCatchEvent(t), BpmnJsonElementView::IntermediateCatchEvent(s)) => base_matches(
            t.base,
            s.base,
        ) && event_matches(t.event_definition, s.event_definition),
        (ProcessElementView::IntermediateThrowEvent(t), BpmnJsonElementView::IntermediateThrowEvent(s)) => base_matches(
            t.base,
            s.base,
        ) && event_matches(t.event_definition, s.event_definition),
        (ProcessElementView::ServiceTask(t), BpmnJsonElementView::ServiceTask(s)) => base_matches(t.base, s.base)
            && t.implementation == s.implementation && t.operation_ref == s.operation_ref && loop_matches(
            t.loop_characteristics,
            s.loop_characteristics,
        ),
        (ProcessElementView::UserTask(t), BpmnJsonElementView::UserTask(s)) => base_matches(t.base, s.base)
            && t.form_key == s.form_key && loop_matches(t.loop_characteristics, s.loop_characteristics),
        (ProcessElementView::ScriptTask(t), BpmnJsonElementView::ScriptTask(s)) => base_matches(t.base, s.base)
            && t.script_format == s.script_format && t.script == s.script && loop_matches(
            t.loop_characteristics,
            s.loop_characteristics,
        ),
        (ProcessElementView::ManualTask(t), BpmnJsonElementView::ManualTask(s)) => base_matches(t.base, s.base),
        (ProcessElementView::ExclusiveGateway(t), BpmnJsonElementView::ExclusiveGateway(s)) => base_matches(
            t.base,
            s.base,
        ) && t.default_flow == s.default_flow,
        (ProcessElementView::ParallelGateway(t), BpmnJsonElementView::ParallelGateway(s)) => base_matches(t.base, s.base)
            && t.default_flow == s.default_flow && match s.gateway_direction {
            Some(d) => t.gateway_direction == d,
            None => t.gateway_direction == GatewayDirection::Unknown,
        },
        (ProcessElementView::InclusiveGateway(t), BpmnJsonElementView::InclusiveGateway(s)) => base_matches(
            t.base,
            s.base,
        ) && t.default_flow == s.default_flow,
        (ProcessElementView::DataObject(t), BpmnJsonElementView::DataObject(s)) => base_matches(t.base, s.base)
            && t.data_state == s.data_state,
        (ProcessElementView::DataInput(t), BpmnJsonElementView::DataInput(s)) => base_matches(t.base, s.base)
            && t.input_set == s.input_set,
        (ProcessElementView::DataOutput(t), BpmnJsonElementView::DataOutput(s)) => base_matches(t.base, s.base)
            && t.output_set == s.output_set,
        (ProcessElementView::DataObjectReference(t), BpmnJsonElementView::DataObjectReference(s)) => base_matches(
            t.base,
            s.base,
        ) && t.data_object_ref == s.data_object_ref,
        (ProcessElementView::CallActivity(t), BpmnJsonElementView::CallActivity(s)) => base_matches(t.base, s.base)
            && t.called_element == s.called_element && t.business_key == s.business_key && assocs_match(
            t.data_input_associations,
            s.data_input_associations,
        ) && assocs_match(t.data_output_associations, s.data_output_associations),
        _ => false,
    }
}

/// Reading a JSON element keeps each field in its own place: the element
/// read is of the JSON element's kind, and each of its fields holds what
/// the JSON field of the same name holds. A sequence flow is no element.
pub proof fn law_json_element_fields_read(j: BpmnJsonElementView)
    ensures
        j is SequenceFlow ==> spec_element_from_json(j) is None,
        !(j is SequenceFlow) ==> (spec_element_from_json(j) matches Some(e) && element_matches_json(e, j)),
{
    match j {
        BpmnJsonElementView::CallActivity(s) => {
            let t = CallActivity::spec_from_json(s);
            assert(assocs_match(t.data_input_associations, s.data_input_associations));
            assert(assocs_match(t.data_output_associations, s.data_output_associations));
        },
        _ => {},
    }
}

/// Writing an element as JSON keeps each field in its own place: the JSON
/// element is of the element's kind, and each of its fields holds what the
/// element's field of the same name holds.
pub proof fn law_json_element_fields_written(e: ProcessElementView)
    ensures
        element_matches_json(e, e.spec_to_json_element()),
{
    match e {
        ProcessElementView::CallActivity(t) => {
            let s = t.spec_to_json();
            assert(assocs_match(t.data_input_associations, s.data_input_associations));
            assert(assocs_match(t.data_output_associations, s.data_output_associations));
        },
        _ => {},
    }
}

/// Whether the flow `f` and the JSON flow `j` hold the same ID, name,
/// source, target and condition.
pub open spec fn flow_matches_json(f: SequenceFlow, j: BpmnJsonSequenceFlow) -> bool {
    &&& f.id == j.base.id
    &&& f.name == j.base.name
    &&& f.source_ref == j.source_ref
    &&& f.target_ref == j.target_ref
    &&& match (f.condition_expression, j.condition_expression) {
        (None, None) => true,
        (Some(x), Some(y)) => x.language == y.language && x.body == y.body,
        _ => false,
    }
}

/// Reading a JSON flow, and writing a flow as JSON, keep each field in its
/// own place: the source stays the source and the target the target.
pub proof fn law_json_flow_fields(j: BpmnJsonSequenceFlow, f: SequenceFlow)
    ensures
        flow_matches_json(SequenceFlow::spec_from_json(j), j),
        flow_matches_json(f, f.spec_to_json()),
{
}

} // verus!
