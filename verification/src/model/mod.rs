//! BPMN model: process definitions, their JSON and XML forms, and format
//! detection.

pub mod elements;
pub mod format;
pub mod json;
pub mod xml;
pub mod xml_read;
pub mod xml_write;
pub mod xml_round_trip;

pub use elements::{
    Assignment, CallActivity, ConditionExpression, DataAssociation, DataInput, DataObject, DataObjectReference,
    DataOutput, ElementBase, EndEvent, EventDefinition, ExclusiveGateway, InclusiveGateway, IntermediateCatchEvent,
    IntermediateThrowEvent, IoMapping, IoParameter, ManualTask, MultiInstanceLoopCharacteristics, ParallelGateway,
    ProcessDefinition, ProcessElement, ScriptTask, SequenceFlow, ServiceTask, StartEvent, UserTask, Variable,
};
pub use format::{AutoParser, BpmnFormat, DetectionError, FormatDetector, JsonParser, ParseError, SerializeError, XmlParser};
pub use xml::parse_bpmn_xml;
pub use xml_write::serialize_bpmn_xml;
