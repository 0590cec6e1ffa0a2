//! BPMN 2.0 XML: reading a process definition from the events of an XML
//! reader.
//!
//! quick_xml reads the XML; which tags, attributes and texts make which
//! elements is decided here.

use vstd::prelude::*;
use crate::engine::context::GatewayDirection;
use crate::lists::{lemma_map_push, lemma_upsert_related, upsert};
use crate::model::elements::{
    distinct_ids, distinct_keys, element_key, elements_view, flow_key, lemma_upsert_distinct, upsert_element, upsert_flow, CallActivity, ConditionExpression,
    DataAssociation, DataInput, DataObject, DataObjectReference, DataOutput, ElementBase, EndEvent, EventDefinition,
    ExclusiveGateway, InclusiveGateway, IntermediateCatchEvent, IntermediateThrowEvent, IoMapping, IoMappingView,
    ManualTask, MultiInstanceLoopCharacteristics, ParallelGateway, ProcessDefinition, ProcessDefinitionView,
    ProcessElement, ProcessElementView, ScriptTask, SequenceFlow, ServiceTask, StartEvent, UserTask,
};
use crate::model::format::ParseError;
use crate::model::xml_read::{
    attributes_view, decode_text, events_view, lossy_utf8, read_xml_events, text_decoded, text_of_bytes, xml_events, XmlEvent,
    XmlEventView,
};
use crate::text::{chars_of, i32_text, parse_i32, str_eq};

verus! {

/// Whether the bytes `name` spell the ASCII text `text`.
pub open spec fn spells(name: Seq<u8>, text: Seq<char>) -> bool {
    name.len() == text.len() && forall|i: int| 0 <= i < name.len() ==> name[i] as u32 == #[trigger] text[i] as u32
}

/// Whether `name` is the BPMN tag `local`, bare or with the prefix `bpmn2:`
/// or `bpmn:`.
pub open spec fn is_bpmn_tag(name: Seq<u8>, local: Seq<char>) -> bool {
    spells(name, "bpmn2:"@ + local) || spells(name, "bpmn:"@ + local) || spells(name, local)
}

/// The value of the attribute `key` among `attrs`: the last one with that
/// key that parses, decoded as `String::from_utf8_lossy` does (entity
/// references stay as they are written).
pub open spec fn attribute(attrs: Seq<Option<(Seq<u8>, Seq<u8>)>>, key: Seq<char>) -> Option<Seq<char>>
    decreases attrs.len(),
{
    if attrs.len() == 0 {
        None
    } else {
        match attrs.last() {
            Some(p) => if spells(p.0, key) {
                Some(lossy_utf8(p.1))
            } else {
                attribute(attrs.drop_last(), key)
            },
            None => attribute(attrs.drop_last(), key),
        }
    }
}

/// The kinds of element a BPMN tag makes.
#[derive(PartialEq, Eq, Structural, Clone, Copy)]
pub enum XmlKind {
    StartEvent,
    EndEvent,
    IntermediateCatchEvent,
    IntermediateThrowEvent,
    ServiceTask,
    UserTask,
    ScriptTask,
    ManualTask,
    ExclusiveGateway,
    ParallelGateway,
    InclusiveGateway,
    CallActivity,
    DataObject,
    DataInput,
    DataOutput,
    DataObjectReference,
}

/// The kind of element the tag `name` makes, if any.
pub open spec fn tag_kind(name: Seq<u8>) -> Option<XmlKind> {
    if is_bpmn_tag(name, "startEvent"@) {
        Some(XmlKind::StartEvent)
    } else if is_bpmn_tag(name, "endEvent"@) {
        Some(XmlKind::EndEvent)
    } else if is_bpmn_tag(name, "intermediateCatchEvent"@) {
        Some(XmlKind::IntermediateCatchEvent)
    } else if is_bpmn_tag(name, "intermediateThrowEvent"@) {
        Some(XmlKind::IntermediateThrowEvent)
    } else if is_bpmn_tag(name, "serviceTask"@) {
        Some(XmlKind::ServiceTask)
    } else if is_bpmn_tag(name, "userTask"@) {
        Some(XmlKind::UserTask)
    } else if is_bpmn_tag(name, "scriptTask"@) {
        Some(XmlKind::ScriptTask)
    } else if is_bpmn_tag(name, "manualTask"@) {
        Some(XmlKind::ManualTask)
    } else if is_bpmn_tag(name, "exclusiveGateway"@) {
        Some(XmlKind::ExclusiveGateway)
    } else if is_bpmn_tag(name, "parallelGateway"@) {
        Some(XmlKind::ParallelGateway)
    } else if is_bpmn_tag(name, "inclusiveGateway"@) {
        Some(XmlKind::InclusiveGateway)
    } else if is_bpmn_tag(name, "callActivity"@) {
        Some(XmlKind::CallActivity)
    } else if is_bpmn_tag(name, "dataObject"@) {
        Some(XmlKind::DataObject)
    } else if is_bpmn_tag(name, "dataInput"@) {
        Some(XmlKind::DataInput)
    } else if is_bpmn_tag(name, "dataOutput"@) {
        Some(XmlKind::DataOutput)
    } else if is_bpmn_tag(name, "dataObjectReference"@) {
        Some(XmlKind::DataObjectReference)
    } else {
        None
    }
}

/// Whether elements of kind `kind` are events, which take an event
/// definition.
pub open spec fn is_event_kind(kind: XmlKind) -> bool {
    kind == XmlKind::StartEvent || kind == XmlKind::EndEvent || kind == XmlKind::IntermediateCatchEvent || kind
        == XmlKind::IntermediateThrowEvent
}

/// Whether elements of kind `kind` take multi-instance loop
/// characteristics: service, user and script tasks.
pub open spec fn is_loop_kind(kind: XmlKind) -> bool {
    kind == XmlKind::ServiceTask || kind == XmlKind::UserTask || kind == XmlKind::ScriptTask
}

/// The attribute an element of kind `kind` reads besides its ID and name:
/// a service task's `implementation`, a user task's `formKey`, a script
/// task's `scriptFormat`, a gateway's `default`, a call activity's
/// `calledElement`, a data object's `dataState`, a data object reference's
/// `dataObjectRef`.
pub open spec fn first_extra(kind: XmlKind) -> Option<Seq<char>> {
    match kind {
        XmlKind::ServiceTask => Some("implementation"@),
        XmlKind::UserTask => Some("formKey"@),
        XmlKind::ScriptTask => Some("scriptFormat"@),
        XmlKind::ExclusiveGateway => Some("default"@),
        XmlKind::ParallelGateway => Some("default"@),
        XmlKind::InclusiveGateway => Some("default"@),
        XmlKind::CallActivity => Some("calledElement"@),
        XmlKind::DataObject => Some("dataState"@),
        XmlKind::DataObjectReference => Some("dataObjectRef"@),
        _ => None,
    }
}

/// A second attribute an element reads: a service task's `operationRef`, a
/// call activity's `businessKey`.
pub open spec fn second_extra(kind: XmlKind) -> Option<Seq<char>> {
    match kind {
        XmlKind::ServiceTask => Some("operationRef"@),
        XmlKind::CallActivity => Some("businessKey"@),
        _ => None,
    }
}

/// The value of the optional attribute `key`.
pub open spec fn extra_value(attrs: Seq<Option<(Seq<u8>, Seq<u8>)>>, key: Option<Seq<char>>) -> Option<Seq<char>> {
    match key {
        Some(k) => attribute(attrs, k),
        None => None,
    }
}

/// The tags that add to the element or flow they stand in.
#[derive(PartialEq, Eq, Structural, Clone, Copy)]
pub enum XmlNested {
    MessageDefinition,
    TimerDefinition,
    SignalDefinition,
    ErrorDefinition,
    EscalationDefinition,
    TerminateDefinition,
    CancelDefinition,
    CompensateDefinition,
    LinkDefinition,
    ConditionalDefinition,
    /// The `condition` of a conditional event definition.
    EventCondition,
    /// `timeDuration`, `timeDate` or `timeCycle`, whose text is a timer's
    /// time definition.
    TimeText,
    MultiInstance,
    LoopCardinality,
    CompletionCondition,
    InputAssociation,
    OutputAssociation,
    SourceRef,
    TargetRef,
    Transformation,
    ConditionExpression,
    Documentation,
    Script,
}

/// The kind of nested tag `name` is, if any.
pub open spec fn nested_kind(name: Seq<u8>) -> Option<XmlNested> {
    if is_bpmn_tag(name, "messageEventDefinition"@) {
        Some(XmlNested::MessageDefinition)
    } else if is_bpmn_tag(name, "timerEventDefinition"@) {
        Some(XmlNested::TimerDefinition)
    } else if is_bpmn_tag(name, "signalEventDefinition"@) {
        Some(XmlNested::SignalDefinition)
    } else if is_bpmn_tag(name, "errorEventDefinition"@) {
        Some(XmlNested::ErrorDefinition)
    } else if is_bpmn_tag(name, "escalationEventDefinition"@) {
        Some(XmlNested::EscalationDefinition)
    } else if is_bpmn_tag(name, "terminateEventDefinition"@) {
        Some(XmlNested::TerminateDefinition)
    } else if is_bpmn_tag(name, "cancelEventDefinition"@) {
        Some(XmlNested::CancelDefinition)
    } else if is_bpmn_tag(name, "compensateEventDefinition"@) {
        Some(XmlNested::CompensateDefinition)
    } else if is_bpmn_tag(name, "linkEventDefinition"@) {
        Some(XmlNested::LinkDefinition)
    } else if is_bpmn_tag(name, "conditionalEventDefinition"@) {
        Some(XmlNested::ConditionalDefinition)
    } else if is_bpmn_tag(name, "condition"@) {
        Some(XmlNested::EventCondition)
    } else if is_bpmn_tag(name, "timeDuration"@) || is_bpmn_tag(name, "timeDate"@) || is_bpmn_tag(
        name,
        "timeCycle"@,
    ) {
        Some(XmlNested::TimeText)
    } else if is_bpmn_tag(name, "multiInstanceLoopCharacteristics"@) {
        Some(XmlNested::MultiInstance)
    } else if is_bpmn_tag(name, "loopCardinality"@) {
        Some(XmlNested::LoopCardinality)
    } else if is_bpmn_tag(name, "completionCondition"@) {
        Some(XmlNested::CompletionCondition)
    } else if is_bpmn_tag(name, "dataInputAssociation"@) {
        Some(XmlNested::InputAssociation)
    } else if is_bpmn_tag(name, "dataOutputAssociation"@) {
        Some(XmlNested::OutputAssociation)
    } else if is_bpmn_tag(name, "sourceRef"@) {
        Some(XmlNested::SourceRef)
    } else if is_bpmn_tag(name, "targetRef"@) {
        Some(XmlNested::TargetRef)
    } else if is_bpmn_tag(name, "transformation"@) {
        Some(XmlNested::Transformation)
    } else if is_bpmn_tag(name, "conditionExpression"@) {
        Some(XmlNested::ConditionExpression)
    } else if is_bpmn_tag(name, "documentation"@) {
        Some(XmlNested::Documentation)
    } else if is_bpmn_tag(name, "script"@) {
        Some(XmlNested::Script)
    } else {
        None
    }
}

/// What the text that follows a nested tag fills.
#[derive(PartialEq, Eq, Structural, Clone, Copy)]
pub enum TextSlot {
    TimeDefinition,
    LoopCardinality,
    CompletionCondition,
    SourceRef,
    TargetRef,
    Transformation,
    ConditionBody,
    EventConditionBody,
    Documentation,
    Script,
}

/// An event definition as the XML gives it.
pub enum XmlEventDef {
    Message(Option<Seq<char>>),
    Timer(Option<Seq<char>>),
    Signal(Option<Seq<char>>),
    Error(Option<Seq<char>>),
    Escalation(Option<Seq<char>>),
    Terminate,
    Cancel,
    Compensation(Option<Seq<char>>),
    Link(Option<Seq<char>>),
    Conditional(Option<XmlCondition>),
}

/// Multi-instance loop characteristics as the XML gives them.
pub struct XmlMulti {
    pub is_parallel: bool,
    pub cardinality: Option<i32>,
    pub completion: Option<Seq<char>>,
    pub behavior: Option<Seq<char>>,
}

/// A data association as the XML gives it.
pub struct XmlAssoc {
    pub source: Option<Seq<char>>,
    pub target: Option<Seq<char>>,
    pub transformation: Option<Seq<char>>,
}

/// A condition expression as the XML gives it.
pub struct XmlCondition {
    pub language: Option<Seq<char>>,
    pub body: Seq<char>,
}

/// An element as the XML gives it.
#[verifier::ext_equal]
pub struct XmlElement {
    pub kind: XmlKind,
    pub id: Seq<char>,
    pub name: Option<Seq<char>>,
    pub first: Option<Seq<char>>,
    pub second: Option<Seq<char>>,
    pub documentation: Option<Seq<char>>,
    pub script: Option<Seq<char>>,
    pub direction: GatewayDirection,
    pub event: Option<XmlEventDef>,
    pub multi: Option<XmlMulti>,
    pub inputs: Seq<XmlAssoc>,
    pub outputs: Seq<XmlAssoc>,
}

/// A sequence flow as the XML gives it.
pub struct XmlFlow {
    pub id: Seq<char>,
    pub name: Option<Seq<char>>,
    pub source: Seq<char>,
    pub target: Seq<char>,
    pub condition: Option<XmlCondition>,
}

/// The element or flow whose tag was read last: nested tags and texts add
/// to it until the next element, flow or process tag.
pub enum XmlItem {
    Element(XmlElement),
    Flow(XmlFlow),
}

/// What reading XML events has given so far.
pub struct XmlRead {
    pub process_id: Option<Seq<char>>,
    pub process_name: Option<Seq<char>>,
    pub is_executable: bool,
    pub elements: Seq<XmlElement>,
    pub flows: Seq<XmlFlow>,
    pub open: Option<XmlItem>,
    /// What the next text fills, set by the tag just read.
    pub slot: Option<TextSlot>,
    /// Whether the association read last is a data input association.
    pub into_inputs: bool,
    /// How many tags that are not closed yet the open element or flow has
    /// around what comes next, its own tag included: nested tags add to it
    /// only while this is not zero.
    pub depth: nat,
}

/// The key of an element as the XML gives it.
pub open spec fn xml_element_key() -> spec_fn(XmlElement) -> Seq<char> {
    |x: XmlElement| x.id
}

/// The key of a flow as the XML gives it.
pub open spec fn xml_flow_key() -> spec_fn(XmlFlow) -> Seq<char> {
    |x: XmlFlow| x.id
}

/// Nothing read yet: executable, no process ID.
pub open spec fn xml_start() -> XmlRead {
    XmlRead {
        process_id: None,
        process_name: None,
        is_executable: true,
        elements: Seq::empty(),
        flows: Seq::empty(),
        open: None,
        slot: None,
        into_inputs: true,
        depth: 0,
    }
}

/// `new` when it is present, else `old`.
pub open spec fn or_keep(new: Option<Seq<char>>, old: Option<Seq<char>>) -> Option<Seq<char>> {
    if new is Some {
        new
    } else {
        old
    }
}

/// The gateway direction that the value of a `gatewayDirection` attribute
/// names: `Converging`, `Diverging` or `Mixed`; anything else, or none, is
/// unknown.
pub open spec fn direction_value(v: Option<Seq<char>>) -> GatewayDirection {
    if v == Some("Converging"@) {
        GatewayDirection::Converging
    } else if v == Some("Diverging"@) {
        GatewayDirection::Diverging
    } else if v == Some("Mixed"@) {
        GatewayDirection::Mixed
    } else {
        GatewayDirection::Unknown
    }
}

/// The element of kind `kind` with ID `id` that a tag with attributes
/// `attrs` opens.
pub open spec fn new_element(kind: XmlKind, id: Seq<char>, attrs: Seq<Option<(Seq<u8>, Seq<u8>)>>) -> XmlElement {
    XmlElement {
        kind,
        id,
        name: attribute(attrs, "name"@),
        first: extra_value(attrs, first_extra(kind)),
        second: extra_value(attrs, second_extra(kind)),
        documentation: None,
        script: None,
        direction: direction_value(attribute(attrs, "gatewayDirection"@)),
        event: None,
        multi: None,
        inputs: Seq::empty(),
        outputs: Seq::empty(),
    }
}

/// `x` with the event definition `d`, when `x` is an event.
pub open spec fn with_event(x: XmlElement, d: XmlEventDef) -> XmlElement {
    if is_event_kind(x.kind) {
        XmlElement { event: Some(d), ..x }
    } else {
        x
    }
}

/// No data association's references yet.
pub open spec fn empty_assoc() -> XmlAssoc {
    XmlAssoc { source: None, target: None, transformation: None }
}

/// What a tag of kind `n` with attributes `attrs`, nested in the element
/// `x`, does: the element it leaves, what the next text fills, and whether
/// the current association is an input one. An event definition tag sets
/// an event's definition, and a `condition` tag starts a conditional
/// event's condition; a multi-instance tag sets a task's loop
/// characteristics (parallel when `isParallel` is `true`, with the
/// `behavior` it names); an association tag starts a call activity's next
/// input or output association; the tags of texts say what the next text
/// fills.
pub open spec fn element_nested(
    x: XmlElement,
    n: Option<XmlNested>,
    attrs: Seq<Option<(Seq<u8>, Seq<u8>)>>,
    into_inputs: bool,
) -> (XmlElement, Option<TextSlot>, bool) {
    match n {
        Some(XmlNested::MessageDefinition) => (
            with_event(x, XmlEventDef::Message(attribute(attrs, "messageRef"@))),
            None,
            into_inputs,
        ),
        Some(XmlNested::TimerDefinition) => (with_event(x, XmlEventDef::Timer(None)), None, into_inputs),
        Some(XmlNested::SignalDefinition) => (
            with_event(x, XmlEventDef::Signal(attribute(attrs, "signalRef"@))),
            None,
            into_inputs,
        ),
        Some(XmlNested::ErrorDefinition) => (
            with_event(x, XmlEventDef::Error(attribute(attrs, "errorRef"@))),
            None,
            into_inputs,
        ),
        Some(XmlNested::EscalationDefinition) => (
            with_event(x, XmlEventDef::Escalation(attribute(attrs, "escalationRef"@))),
            None,
            into_inputs,
        ),
        Some(XmlNested::TerminateDefinition) => (with_event(x, XmlEventDef::Terminate), None, into_inputs),
        Some(XmlNested::CancelDefinition) => (with_event(x, XmlEventDef::Cancel), None, into_inputs),
        Some(XmlNested::CompensateDefinition) => (
            with_event(x, XmlEventDef::Compensation(attribute(attrs, "activityRef"@))),
            None,
            into_inputs,
        ),
        Some(XmlNested::LinkDefinition) => (
            with_event(x, XmlEventDef::Link(attribute(attrs, "name"@))),
            None,
            into_inputs,
        ),
        Some(XmlNested::ConditionalDefinition) => (with_event(x, XmlEventDef::Conditional(None)), None, into_inputs),
        Some(XmlNested::EventCondition) => (
            match x.event {
                Some(XmlEventDef::Conditional(_)) => XmlElement {
                    event: Some(
                        XmlEventDef::Conditional(
                            Some(XmlCondition { language: attribute(attrs, "language"@), body: Seq::empty() }),
                        ),
                    ),
                    ..x
                },
                _ => x,
            },
            Some(TextSlot::EventConditionBody),
            into_inputs,
        ),
        Some(XmlNested::TimeText) => (x, Some(TextSlot::TimeDefinition), into_inputs),
        Some(XmlNested::MultiInstance) => (
            if is_loop_kind(x.kind) {
                XmlElement {
                    multi: Some(
                        XmlMulti {
                            is_parallel: attribute(attrs, "isParallel"@) == Some("true"@),
                            cardinality: None,
                            completion: None,
                            behavior: attribute(attrs, "behavior"@),
                        },
                    ),
                    ..x
                }
            } else {
                x
            },
            None,
            into_inputs,
        ),
        Some(XmlNested::LoopCardinality) => (x, Some(TextSlot::LoopCardinality), into_inputs),
        Some(XmlNested::CompletionCondition) => (x, Some(TextSlot::CompletionCondition), into_inputs),
        Some(XmlNested::InputAssociation) => if x.kind == XmlKind::CallActivity {
            (XmlElement { inputs: x.inputs.push(empty_assoc()), ..x }, None, true)
        } else {
            (x, None, into_inputs)
        },
        Some(XmlNested::OutputAssociation) => if x.kind == XmlKind::CallActivity {
            (XmlElement { outputs: x.outputs.push(empty_assoc()), ..x }, None, false)
        } else {
            (x, None, into_inputs)
        },
        Some(XmlNested::SourceRef) => (x, Some(TextSlot::SourceRef), into_inputs),
        Some(XmlNested::TargetRef) => (x, Some(TextSlot::TargetRef), into_inputs),
        Some(XmlNested::Transformation) => (x, Some(TextSlot::Transformation), into_inputs),
        Some(XmlNested::Documentation) => (x, Some(TextSlot::Documentation), into_inputs),
        Some(XmlNested::Script) => (x, Some(TextSlot::Script), into_inputs),
        _ => (x, None, into_inputs),
    }
}

/// The parts of a data association that a text sets.
#[derive(PartialEq, Eq, Structural, Clone, Copy)]
pub enum AssocField {
    Source,
    Target,
    Transformation,
}

/// The associations `s` with the last one's part `field` set to `text`;
/// none when there are none.
pub open spec fn set_last_ref(s: Seq<XmlAssoc>, field: AssocField, text: Seq<char>) -> Seq<XmlAssoc> {
    if s.len() == 0 {
        s
    } else {
        s.update(
            s.len() - 1,
            match field {
                AssocField::Source => XmlAssoc { source: Some(text), ..s.last() },
                AssocField::Target => XmlAssoc { target: Some(text), ..s.last() },
                AssocField::Transformation => XmlAssoc { transformation: Some(text), ..s.last() },
            },
        )
    }
}

/// The element `x` with the last association of the current kind (input
/// when `into_inputs`) getting `text` as its part `field`.
pub open spec fn with_assoc_text(x: XmlElement, into_inputs: bool, field: AssocField, text: Seq<char>) -> XmlElement {
    if into_inputs {
        XmlElement { inputs: set_last_ref(x.inputs, field, text), ..x }
    } else {
        XmlElement { outputs: set_last_ref(x.outputs, field, text), ..x }
    }
}

/// What the text `text`, filling `slot`, does to the element `x`: a
/// timer's time definition, a loop's cardinality (the integer it spells,
/// if any) or completion condition, a reference or the transformation of
/// the current data association, a conditional event's condition, the
/// element's documentation, or a script task's script.
pub open spec fn element_text(x: XmlElement, slot: Option<TextSlot>, into_inputs: bool, text: Seq<char>) -> XmlElement {
    match slot {
        Some(TextSlot::TimeDefinition) => match x.event {
            Some(XmlEventDef::Timer(_)) => XmlElement { event: Some(XmlEventDef::Timer(Some(text))), ..x },
            _ => x,
        },
        Some(TextSlot::LoopCardinality) => match x.multi {
            Some(m) => XmlElement { multi: Some(XmlMulti { cardinality: i32_text(text), ..m }), ..x },
            None => x,
        },
        Some(TextSlot::CompletionCondition) => match x.multi {
            Some(m) => XmlElement { multi: Some(XmlMulti { completion: Some(text), ..m }), ..x },
            None => x,
        },
        Some(TextSlot::SourceRef) => with_assoc_text(x, into_inputs, AssocField::Source, text),
        Some(TextSlot::TargetRef) => with_assoc_text(x, into_inputs, AssocField::Target, text),
        Some(TextSlot::Transformation) => with_assoc_text(x, into_inputs, AssocField::Transformation, text),
        Some(TextSlot::EventConditionBody) => match x.event {
            Some(XmlEventDef::Conditional(Some(c))) => XmlElement {
                event: Some(XmlEventDef::Conditional(Some(XmlCondition { body: text, ..c }))),
                ..x
            },
            _ => x,
        },
        Some(TextSlot::Documentation) => XmlElement { documentation: Some(text), ..x },
        Some(TextSlot::Script) => if x.kind == XmlKind::ScriptTask {
            XmlElement { script: Some(text), ..x }
        } else {
            x
        },
        _ => x,
    }
}

/// What a nested tag does to the flow `x`: a condition expression starts
/// the flow's condition, in the language its `language` attribute names,
/// with the text that follows as its body.
pub open spec fn flow_nested(x: XmlFlow, n: Option<XmlNested>, attrs: Seq<Option<(Seq<u8>, Seq<u8>)>>) -> (
    XmlFlow,
    Option<TextSlot>,
) {
    match n {
        Some(XmlNested::ConditionExpression) => (
            XmlFlow {
                condition: Some(XmlCondition { language: attribute(attrs, "language"@), body: Seq::empty() }),
                ..x
            },
            Some(TextSlot::ConditionBody),
        ),
        _ => (x, None),
    }
}

/// What the text `text`, filling `slot`, does to the flow `x`.
pub open spec fn flow_text(x: XmlFlow, slot: Option<TextSlot>, text: Seq<char>) -> XmlFlow {
    match (slot, x.condition) {
        (Some(TextSlot::ConditionBody), Some(c)) => XmlFlow { condition: Some(XmlCondition { body: text, ..c }), ..x },
        _ => x,
    }
}

/// `st` with its open element or flow put in place of any with its ID.
pub open spec fn flush(st: XmlRead) -> XmlRead {
    match st.open {
        Some(XmlItem::Element(x)) => XmlRead { elements: upsert(st.elements, xml_element_key(), x), open: None, ..st },
        Some(XmlItem::Flow(x)) => XmlRead { flows: upsert(st.flows, xml_flow_key(), x), open: None, ..st },
        None => st,
    }
}

/// What the start tag `name` with attributes `attrs` does to `st`. The process tag, an element tag and a sequence
/// flow tag close the open element or flow; the process tag then sets the
/// process ID, name and executable flag it has; an element tag with an ID
/// opens its element, a sequence flow tag with an ID, source and target its
/// flow. Any other tag is nested in the open element or flow while that
/// element's or flow's own tag is not closed, and is passed over otherwise.
pub open spec fn read_tag(st: XmlRead, name: Seq<u8>, attrs: Seq<Option<(Seq<u8>, Seq<u8>)>>) -> XmlRead {
    if is_bpmn_tag(name, "process"@) {
        let s = flush(st);
        XmlRead {
            process_id: or_keep(attribute(attrs, "id"@), s.process_id),
            process_name: or_keep(attribute(attrs, "name"@), s.process_name),
            is_executable: match attribute(attrs, "isExecutable"@) {
                Some(v) => v == "true"@,
                None => s.is_executable,
            },
            slot: None,
            depth: 0,
            ..s
        }
    } else if let Some(kind) = tag_kind(name) {
        let s = flush(st);
        XmlRead {
            open: match attribute(attrs, "id"@) {
                Some(id) => Some(XmlItem::Element(new_element(kind, id, attrs))),
                None => None,
            },
            slot: None,
            depth: 1,
            ..s
        }
    } else if is_bpmn_tag(name, "sequenceFlow"@) {
        let s = flush(st);
        XmlRead {
            open: match (attribute(attrs, "id"@), attribute(attrs, "sourceRef"@), attribute(attrs, "targetRef"@)) {
                (Some(id), Some(source), Some(target)) => Some(
                    XmlItem::Flow(XmlFlow { id, name: attribute(attrs, "name"@), source, target, condition: None }),
                ),
                _ => None,
            },
            slot: None,
            depth: 1,
            ..s
        }
    } else if st.depth == 0 {
        XmlRead { slot: None, ..st }
    } else {
        let depth: nat = st.depth + 1;
        match st.open {
            Some(XmlItem::Element(x)) => {
                let r = element_nested(x, nested_kind(name), attrs, st.into_inputs);
                XmlRead { open: Some(XmlItem::Element(r.0)), slot: r.1, into_inputs: r.2, depth, ..st }
            },
            Some(XmlItem::Flow(x)) => {
                let r = flow_nested(x, nested_kind(name), attrs);
                XmlRead { open: Some(XmlItem::Flow(r.0)), slot: r.1, depth, ..st }
            },
            None => XmlRead { slot: None, depth, ..st },
        }
    }
}

/// What the text `text` does to `st`: it fills what the tag before it
/// opened in the open element or flow.
pub open spec fn read_text(st: XmlRead, text: Seq<char>) -> XmlRead {
    match st.open {
        Some(XmlItem::Element(x)) => XmlRead {
            open: Some(XmlItem::Element(element_text(x, st.slot, st.into_inputs, text))),
            ..st
        },
        Some(XmlItem::Flow(x)) => XmlRead { open: Some(XmlItem::Flow(flow_text(x, st.slot, text))), ..st },
        None => st,
    }
}

/// What one event does to `st`: a text is unescaped, a CDATA section taken
/// as it is; an end tag closes a tag, and leaves, as any other event does,
/// no text to fill.
pub open spec fn read_event(st: XmlRead, e: XmlEventView) -> XmlRead {
    match e {
        XmlEventView::Tag(name, attributes) => read_tag(st, name, attributes),
        XmlEventView::Text(bytes) => read_text(st, text_decoded(bytes)),
        XmlEventView::CData(bytes) => read_text(st, lossy_utf8(bytes)),
        XmlEventView::End => XmlRead { slot: None, depth: if st.depth > 0 { (st.depth - 1) as nat } else { 0 }, ..st },
        XmlEventView::Other => XmlRead { slot: None, ..st },
    }
}

/// What reading the events `events` in order gives.
pub open spec fn read_events(events: Seq<XmlEventView>) -> XmlRead
    decreases events.len(),
{
    if events.len() == 0 {
        xml_start()
    } else {
        read_event(read_events(events.drop_last()), events.last())
    }
}

/// What the events `events`, read up to the reader's error `error` if any,
/// give, the last element or flow closed: what they describe, or the
/// error: the reader's, or that no process ID was found.
pub open spec fn xml_result(events: Seq<XmlEventView>, error: Option<Seq<char>>) -> Result<XmlRead, Seq<char>> {
    let st = flush(read_events(events));
    match error {
        Some(m) => Err("XML parse error: "@ + m),
        None => if st.process_id is None {
            Err("Process ID not found"@)
        } else {
            Ok(st)
        },
    }
}

/// The text of an optional string.
pub open spec fn opt_text(o: Option<String>) -> Option<Seq<char>> {
    match o {
        Some(s) => Some(s@),
        None => None,
    }
}

/// Whether the optional string `o` holds the optional text `t`.
pub open spec fn opt_is(o: Option<String>, t: Option<Seq<char>>) -> bool {
    opt_text(o) == t
}

/// Whether `b` is the base of the element `x`: its ID, name and
/// documentation.
pub open spec fn base_is(b: ElementBase, x: XmlElement) -> bool {
    b.id@ == x.id && opt_is(b.name, x.name) && opt_is(b.documentation, x.documentation)
}

/// Whether `c` is the condition that `x` describes.
pub open spec fn condition_is(c: Option<ConditionExpression>, x: Option<XmlCondition>) -> bool {
    match (c, x) {
        (None, None) => true,
        (Some(c), Some(x)) => opt_is(c.language, x.language) && c.body@ == x.body,
        _ => false,
    }
}

/// Whether `d` is the event definition that `x` describes.
pub open spec fn event_is(d: Option<EventDefinition>, x: Option<XmlEventDef>) -> bool {
    match (d, x) {
        (None, None) => true,
        (Some(EventDefinition::Message { message_ref }), Some(XmlEventDef::Message(r))) => opt_is(message_ref, r),
        (Some(EventDefinition::Timer { time_definition }), Some(XmlEventDef::Timer(t))) => opt_is(time_definition, t),
        (Some(EventDefinition::Signal { signal_ref }), Some(XmlEventDef::Signal(r))) => opt_is(signal_ref, r),
        (Some(EventDefinition::Error { error_ref }), Some(XmlEventDef::Error(r))) => opt_is(error_ref, r),
        (Some(EventDefinition::Escalation { escalation_ref }), Some(XmlEventDef::Escalation(r))) => opt_is(
            escalation_ref,
            r,
        ),
        (Some(EventDefinition::Terminate), Some(XmlEventDef::Terminate)) => true,
        (Some(EventDefinition::Cancel), Some(XmlEventDef::Cancel)) => true,
        (Some(EventDefinition::Compensation { activity_ref }), Some(XmlEventDef::Compensation(r))) => opt_is(
            activity_ref,
            r,
        ),
        (Some(EventDefinition::Link { name }), Some(XmlEventDef::Link(n))) => opt_is(name, n),
        (Some(EventDefinition::Conditional { condition }), Some(XmlEventDef::Conditional(c))) => condition_is(
            condition,
            c,
        ),
        _ => false,
    }
}

/// Whether `m` is the loop characteristics that `x` describes.
pub open spec fn multi_is(m: Option<MultiInstanceLoopCharacteristics>, x: Option<XmlMulti>) -> bool {
    match (m, x) {
        (None, None) => true,
        (Some(m), Some(x)) => m.is_parallel == x.is_parallel && m.loop_cardinality == x.cardinality && opt_is(
            m.completion_condition,
            x.completion,
        ) && opt_is(m.behavior, x.behavior),
        _ => false,
    }
}

/// Whether the data associations `s` are those that `xs` describe, in
/// order.
pub open spec fn assocs_are(s: Seq<DataAssociation>, xs: Seq<XmlAssoc>) -> bool {
    s.len() == xs.len() && forall|i: int|
        #![trigger s[i]]
        0 <= i < s.len() ==> opt_is(s[i].source_ref, xs[i].source) && opt_is(s[i].target_ref, xs[i].target)
            && opt_is(s[i].transformation, xs[i].transformation)
}

/// Whether `e` is the element that `x` describes.
pub open spec fn element_is(e: ProcessElementView, x: XmlElement) -> bool {
    match x.kind {
        XmlKind::StartEvent => e matches ProcessElementView::StartEvent(s) && base_is(s.base, x)
            && event_is(s.event_definition, x.event),
        XmlKind::EndEvent => e matches ProcessElementView::EndEvent(s) && base_is(s.base, x) && event_is(
            s.event_definition,
            x.event,
        ),
        XmlKind::IntermediateCatchEvent => e matches ProcessElementView::IntermediateCatchEvent(s) && base_is(s.base, x) && event_is(s.event_definition, x.event),
        XmlKind::IntermediateThrowEvent => e matches ProcessElementView::IntermediateThrowEvent(s) && base_is(s.base, x) && event_is(s.event_definition, x.event),
        XmlKind::ServiceTask => e matches ProcessElementView::ServiceTask(s) && base_is(s.base, x)
            && opt_is(s.implementation, x.first) && opt_is(s.operation_ref, x.second) && s.io_mapping
            == IoMappingView { input_parameters: Seq::empty(), output_parameters: Seq::empty() } && multi_is(
            s.loop_characteristics,
            x.multi,
        ),
        XmlKind::UserTask => e matches ProcessElementView::UserTask(s) && base_is(s.base, x)
            && s.assignment is None && opt_is(s.form_key, x.first) && multi_is(s.loop_characteristics, x.multi),
        XmlKind::ScriptTask => e matches ProcessElementView::ScriptTask(s) && base_is(s.base, x)
            && opt_is(s.script_format, x.first) && opt_is(s.script, x.script) && multi_is(s.loop_characteristics, x.multi),
        XmlKind::ManualTask => e matches ProcessElementView::ManualTask(s) && base_is(s.base, x),
        XmlKind::ExclusiveGateway => e matches ProcessElementView::ExclusiveGateway(s) && base_is(s.base, x) && opt_is(s.default_flow, x.first),
        XmlKind::ParallelGateway => e matches ProcessElementView::ParallelGateway(s) && base_is(s.base, x) && opt_is(s.default_flow, x.first) && s.gateway_direction == x.direction,
        XmlKind::InclusiveGateway => e matches ProcessElementView::InclusiveGateway(s) && base_is(s.base, x) && opt_is(s.default_flow, x.first),
        XmlKind::CallActivity => e matches ProcessElementView::CallActivity(s) && base_is(s.base, x)
            && opt_is(s.called_element, x.first) && opt_is(s.business_key, x.second) && assocs_are(
            s.data_input_associations,
            x.inputs,
        ) && assocs_are(s.data_output_associations, x.outputs),
        XmlKind::DataObject => e matches ProcessElementView::DataObject(s) && base_is(s.base, x)
            && opt_is(s.data_state, x.first),
        XmlKind::DataInput => e matches ProcessElementView::DataInput(s) && base_is(s.base, x)
            && s.input_set is None,
        XmlKind::DataOutput => e matches ProcessElementView::DataOutput(s) && base_is(s.base, x)
            && s.output_set is None,
        XmlKind::DataObjectReference => e matches ProcessElementView::DataObjectReference(s) && base_is(s.base, x) && opt_is(s.data_object_ref, x.first),
    }
}

/// The condition as the XML would give it.
pub open spec fn condition_view(c: Option<ConditionExpression>) -> Option<XmlCondition> {
    match c {
        Some(c) => Some(XmlCondition { language: opt_text(c.language), body: c.body@ }),
        None => None,
    }
}

/// The flow as the XML would give it.
pub open spec fn flow_view(f: SequenceFlow) -> XmlFlow {
    XmlFlow {
        id: f.id@,
        name: opt_text(f.name),
        source: f.source_ref@,
        target: f.target_ref@,
        condition: condition_view(f.condition_expression),
    }
}

/// Whether `f` is the flow that `x` describes.
pub open spec fn flow_is(f: SequenceFlow, x: XmlFlow) -> bool {
    flow_view(f) == x
}

/// Whether the elements `es` are those that `xs` describe, in order.
pub open spec fn elements_are(es: Seq<ProcessElementView>, xs: Seq<XmlElement>) -> bool {
    es.len() == xs.len() && forall|i: int| #![trigger es[i]] 0 <= i < es.len() ==> element_is(es[i], xs[i])
}

/// Whether the flows `fs` are those that `xs` describe, in order.
pub open spec fn flows_are(fs: Seq<SequenceFlow>, xs: Seq<XmlFlow>) -> bool {
    fs.len() == xs.len() && forall|i: int| #![trigger fs[i]] 0 <= i < fs.len() ==> flow_is(fs[i], xs[i])
}

/// Whether `d` is the process definition that `st` describes: a process of
/// type `process` without variables.
pub open spec fn definition_is(d: ProcessDefinitionView, st: XmlRead) -> bool {
    &&& st.process_id matches Some(id) && d.id@ == id
    &&& opt_is(d.name, st.process_name)
    &&& d.process_type@ == "process"@
    &&& d.is_executable == st.is_executable
    &&& elements_are(d.elements, st.elements)
    &&& flows_are(d.flows, st.flows)
    &&& d.variables.len() == 0
}

/// Whether `e` is the element that `x` describes, as a relation.
pub open spec fn element_rel() -> spec_fn(ProcessElementView, XmlElement) -> bool {
    |e: ProcessElementView, x: XmlElement| element_is(e, x)
}

/// Whether `f` is the flow that `x` describes, as a relation.
pub open spec fn flow_rel() -> spec_fn(SequenceFlow, XmlFlow) -> bool {
    |f: SequenceFlow, x: XmlFlow| flow_is(f, x)
}

/// Whether the elements and flows read, `es` and `fs`, are those that
/// `st` describes, each under its key.
pub open spec fn read_so_far(es: Seq<ProcessElementView>, fs: Seq<SequenceFlow>, st: XmlRead) -> bool {
    &&& elements_are(es, st.elements)
    &&& forall|j: int|
        #![trigger es[j]]
        0 <= j < es.len() ==> element_key()(es[j]) == xml_element_key()(st.elements[j])
    &&& flows_are(fs, st.flows)
    &&& forall|j: int| #![trigger fs[j]] 0 <= j < fs.len() ==> flow_key()(fs[j]) == xml_flow_key()(st.flows[j])
}

/// Whether the bytes `name` spell the text `text`.
fn spells_text(name: &Vec<u8>, text: &str) -> (r: bool)
    ensures
        r == spells(name@, text@),
{
    let t = chars_of(text);
    if name.len() != t.len() {
        return false;
    }
    let mut i: usize = 0;
    while i < name.len()
        invariant
            name.len() == t.len(),
            t@ == text@,
            i <= name.len(),
            forall|j: int| 0 <= j < i ==> name@[j] as u32 == #[trigger] t@[j] as u32,
        decreases name.len() - i,
    {
        if name[i] as u32 != t[i] as u32 {
            return false;
        }
        i = i + 1;
    }
    true
}

/// Whether `name` is the BPMN tag `local`.
fn is_tag(name: &Vec<u8>, local: &str) -> (r: bool)
    ensures
        r == is_bpmn_tag(name@, local@),
{
    let long = "bpmn2:".to_owned().concat(local);
    let short = "bpmn:".to_owned().concat(local);
    spells_text(name, long.as_str()) || spells_text(name, short.as_str()) || spells_text(name, local)
}

/// The value of the attribute `key` among `attrs`.
fn attribute_value(attrs: &Vec<Option<(Vec<u8>, Vec<u8>)>>, key: &str) -> (r: Option<String>)
    ensures
        opt_text(r) == attribute(attributes_view(attrs@), key@),
{
    let ghost av = attributes_view(attrs@);
    let mut i: usize = attrs.len();
    proof {
        assert(av.take(attrs.len() as int) =~= av);
    }
    while i > 0
        invariant
            av == attributes_view(attrs@),
            i <= attrs.len(),
            attribute(av, key@) == attribute(av.take(i as int), key@),
        decreases i,
    {
        let ghost t = av.take(i as int);
        proof {
            assert(t.drop_last() =~= av.take(i - 1));
            assert(t.last() == av[i - 1]);
        }
        match &attrs[i - 1] {
            Some(p) => {
                if spells_text(&p.0, key) {
                    return Some(text_of_bytes(&p.1));
                }
            },
            None => {},
        }
        i = i - 1;
    }
    None
}

/// A copy of an optional string.
fn copy_opt(o: &Option<String>) -> (r: Option<String>)
    ensures
        r == *o,
{
    match o {
        Some(s) => Some(s.clone()),
        None => None,
    }
}

/// The kind of element the tag `name` makes, if any.
fn kind_of_tag(name: &Vec<u8>) -> (r: Option<XmlKind>)
    ensures
        r == tag_kind(name@),
{
    if is_tag(name, "startEvent") {
        Some(XmlKind::StartEvent)
    } else if is_tag(name, "endEvent") {
        Some(XmlKind::EndEvent)
    } else if is_tag(name, "intermediateCatchEvent") {
        Some(XmlKind::IntermediateCatchEvent)
    } else if is_tag(name, "intermediateThrowEvent") {
        Some(XmlKind::IntermediateThrowEvent)
    } else if is_tag(name, "serviceTask") {
        Some(XmlKind::ServiceTask)
    } else if is_tag(name, "userTask") {
        Some(XmlKind::UserTask)
    } else if is_tag(name, "scriptTask") {
        Some(XmlKind::ScriptTask)
    } else if is_tag(name, "manualTask") {
        Some(XmlKind::ManualTask)
    } else if is_tag(name, "exclusiveGateway") {
        Some(XmlKind::ExclusiveGateway)
    } else if is_tag(name, "parallelGateway") {
        Some(XmlKind::ParallelGateway)
    } else if is_tag(name, "inclusiveGateway") {
        Some(XmlKind::InclusiveGateway)
    } else if is_tag(name, "callActivity") {
        Some(XmlKind::CallActivity)
    } else if is_tag(name, "dataObject") {
        Some(XmlKind::DataObject)
    } else if is_tag(name, "dataInput") {
        Some(XmlKind::DataInput)
    } else if is_tag(name, "dataOutput") {
        Some(XmlKind::DataOutput)
    } else if is_tag(name, "dataObjectReference") {
        Some(XmlKind::DataObjectReference)
    } else {
        None
    }
}

/// The kind of nested tag `name` is, if any.
fn nested_of(name: &Vec<u8>) -> (r: Option<XmlNested>)
    ensures
        r == nested_kind(name@),
{
    if is_tag(name, "messageEventDefinition") {
        Some(XmlNested::MessageDefinition)
    } else if is_tag(name, "timerEventDefinition") {
        Some(XmlNested::TimerDefinition)
    } else if is_tag(name, "signalEventDefinition") {
        Some(XmlNested::SignalDefinition)
    } else if is_tag(name, "errorEventDefinition") {
        Some(XmlNested::ErrorDefinition)
    } else if is_tag(name, "escalationEventDefinition") {
        Some(XmlNested::EscalationDefinition)
    } else if is_tag(name, "terminateEventDefinition") {
        Some(XmlNested::TerminateDefinition)
    } else if is_tag(name, "cancelEventDefinition") {
        Some(XmlNested::CancelDefinition)
    } else if is_tag(name, "compensateEventDefinition") {
        Some(XmlNested::CompensateDefinition)
    } else if is_tag(name, "linkEventDefinition") {
        Some(XmlNested::LinkDefinition)
    } else if is_tag(name, "conditionalEventDefinition") {
        Some(XmlNested::ConditionalDefinition)
    } else if is_tag(name, "condition") {
        Some(XmlNested::EventCondition)
    } else if is_tag(name, "timeDuration") || is_tag(name, "timeDate") || is_tag(name, "timeCycle") {
        Some(XmlNested::TimeText)
    } else if is_tag(name, "multiInstanceLoopCharacteristics") {
        Some(XmlNested::MultiInstance)
    } else if is_tag(name, "loopCardinality") {
        Some(XmlNested::LoopCardinality)
    } else if is_tag(name, "completionCondition") {
        Some(XmlNested::CompletionCondition)
    } else if is_tag(name, "dataInputAssociation") {
        Some(XmlNested::InputAssociation)
    } else if is_tag(name, "dataOutputAssociation") {
        Some(XmlNested::OutputAssociation)
    } else if is_tag(name, "sourceRef") {
        Some(XmlNested::SourceRef)
    } else if is_tag(name, "targetRef") {
        Some(XmlNested::TargetRef)
    } else if is_tag(name, "transformation") {
        Some(XmlNested::Transformation)
    } else if is_tag(name, "conditionExpression") {
        Some(XmlNested::ConditionExpression)
    } else if is_tag(name, "documentation") {
        Some(XmlNested::Documentation)
    } else if is_tag(name, "script") {
        Some(XmlNested::Script)
    } else {
        None
    }
}

/// An event definition being read.
enum EventDraft {
    Message(Option<String>),
    Timer(Option<String>),
    Signal(Option<String>),
    Error(Option<String>),
    Escalation(Option<String>),
    Terminate,
    Cancel,
    Compensation(Option<String>),
    Link(Option<String>),
    Conditional(Option<ConditionExpression>),
}

/// The event definition that a draft describes.
spec fn event_draft_view(e: EventDraft) -> XmlEventDef {
    match e {
        EventDraft::Message(r) => XmlEventDef::Message(opt_text(r)),
        EventDraft::Timer(t) => XmlEventDef::Timer(opt_text(t)),
        EventDraft::Signal(r) => XmlEventDef::Signal(opt_text(r)),
        EventDraft::Error(r) => XmlEventDef::Error(opt_text(r)),
        EventDraft::Escalation(r) => XmlEventDef::Escalation(opt_text(r)),
        EventDraft::Terminate => XmlEventDef::Terminate,
        EventDraft::Cancel => XmlEventDef::Cancel,
        EventDraft::Compensation(r) => XmlEventDef::Compensation(opt_text(r)),
        EventDraft::Link(n) => XmlEventDef::Link(opt_text(n)),
        EventDraft::Conditional(c) => XmlEventDef::Conditional(condition_view(c)),
    }
}

/// An element being read, before it is closed.
struct ElementDraft {
    kind: XmlKind,
    id: String,
    name: Option<String>,
    first: Option<String>,
    second: Option<String>,
    documentation: Option<String>,
    script: Option<String>,
    direction: GatewayDirection,
    event: Option<EventDraft>,
    has_multi: bool,
    is_parallel: bool,
    cardinality: Option<i32>,
    completion: Option<String>,
    behavior: Option<String>,
    inputs: Vec<DataAssociation>,
    outputs: Vec<DataAssociation>,
}

/// The data association as the XML would give it.
pub open spec fn assoc_view(a: DataAssociation) -> XmlAssoc {
    XmlAssoc { source: opt_text(a.source_ref), target: opt_text(a.target_ref), transformation: opt_text(a.transformation) }
}

/// The data associations as the XML would give them.
pub open spec fn assocs_view(s: Seq<DataAssociation>) -> Seq<XmlAssoc> {
    s.map_values(|a: DataAssociation| assoc_view(a))
}

/// The element that a draft describes.
spec fn draft_view(d: ElementDraft) -> XmlElement {
    XmlElement {
        kind: d.kind,
        id: d.id@,
        name: opt_text(d.name),
        first: opt_text(d.first),
        second: opt_text(d.second),
        documentation: opt_text(d.documentation),
        script: opt_text(d.script),
        direction: d.direction,
        event: match d.event {
            Some(e) => Some(event_draft_view(e)),
            None => None,
        },
        multi: if d.has_multi {
            Some(
                XmlMulti {
                    is_parallel: d.is_parallel,
                    cardinality: d.cardinality,
                    completion: opt_text(d.completion),
                    behavior: opt_text(d.behavior),
                },
            )
        } else {
            None
        },
        inputs: assocs_view(d.inputs@),
        outputs: assocs_view(d.outputs@),
    }
}

/// The element or flow that the open draft or flow describes.
spec fn open_view(e: Option<ElementDraft>, f: Option<SequenceFlow>) -> Option<XmlItem> {
    match e {
        Some(d) => Some(XmlItem::Element(draft_view(d))),
        None => match f {
            Some(x) => Some(XmlItem::Flow(flow_view(x))),
            None => None,
        },
    }
}

/// The value of the attribute an element of kind `kind` reads, if any.
fn extra_attribute(attrs: &Vec<Option<(Vec<u8>, Vec<u8>)>>, key: Option<&str>) -> (r: Option<String>)
    ensures
        opt_text(r) == match key {
            Some(k) => attribute(attributes_view(attrs@), k@),
            None => None,
        },
{
    match key {
        Some(k) => attribute_value(attrs, k),
        None => None,
    }
}

/// The attribute `first_extra` names.
fn first_key(kind: XmlKind) -> (r: Option<&'static str>)
    ensures
        match r {
            Some(k) => first_extra(kind) == Some(k@),
            None => first_extra(kind) is None,
        },
{
    match kind {
        XmlKind::ServiceTask => Some("implementation"),
        XmlKind::UserTask => Some("formKey"),
        XmlKind::ScriptTask => Some("scriptFormat"),
        XmlKind::ExclusiveGateway => Some("default"),
        XmlKind::ParallelGateway => Some("default"),
        XmlKind::InclusiveGateway => Some("default"),
        XmlKind::CallActivity => Some("calledElement"),
        XmlKind::DataObject => Some("dataState"),
        XmlKind::DataObjectReference => Some("dataObjectRef"),
        _ => None,
    }
}

/// The attribute `second_extra` names.
fn second_key(kind: XmlKind) -> (r: Option<&'static str>)
    ensures
        match r {
            Some(k) => second_extra(kind) == Some(k@),
            None => second_extra(kind) is None,
        },
{
    match kind {
        XmlKind::ServiceTask => Some("operationRef"),
        XmlKind::CallActivity => Some("businessKey"),
        _ => None,
    }
}

/// The gateway direction that the `gatewayDirection` attribute names.
fn direction_of(attrs: &Vec<Option<(Vec<u8>, Vec<u8>)>>) -> (r: GatewayDirection)
    ensures
        r == direction_value(attribute(attributes_view(attrs@), "gatewayDirection"@)),
{
    match attribute_value(attrs, "gatewayDirection") {
        Some(v) => if str_eq(v.as_str(), "Converging") {
            GatewayDirection::Converging
        } else if str_eq(v.as_str(), "Diverging") {
            GatewayDirection::Diverging
        } else if str_eq(v.as_str(), "Mixed") {
            GatewayDirection::Mixed
        } else {
            GatewayDirection::Unknown
        },
        None => GatewayDirection::Unknown,
    }
}

/// The draft of the element of kind `kind` with ID `id` that a tag with
/// attributes `attrs` opens.
fn new_draft(kind: XmlKind, id: String, attrs: &Vec<Option<(Vec<u8>, Vec<u8>)>>) -> (d: ElementDraft)
    ensures
        draft_view(d) == new_element(kind, id@, attributes_view(attrs@)),
{
    let d = ElementDraft {
        kind,
        id,
        name: attribute_value(attrs, "name"),
        first: extra_attribute(attrs, first_key(kind)),
        second: extra_attribute(attrs, second_key(kind)),
        documentation: None,
        script: None,
        direction: direction_of(attrs),
        event: None,
        has_multi: false,
        is_parallel: false,
        cardinality: None,
        completion: None,
        behavior: None,
        inputs: Vec::new(),
        outputs: Vec::new(),
    };
    proof {
        assert(assocs_view(d.inputs@) =~= Seq::<XmlAssoc>::empty());
        assert(assocs_view(d.outputs@) =~= Seq::<XmlAssoc>::empty());
    }
    d
}

/// Whether elements of kind `kind` are events.
fn event_kind(kind: XmlKind) -> (r: bool)
    ensures
        r == is_event_kind(kind),
{
    match kind {
        XmlKind::StartEvent | XmlKind::EndEvent | XmlKind::IntermediateCatchEvent
        | XmlKind::IntermediateThrowEvent => true,
        _ => false,
    }
}

/// Whether elements of kind `kind` take loop characteristics.
fn loop_kind(kind: XmlKind) -> (r: bool)
    ensures
        r == is_loop_kind(kind),
{
    match kind {
        XmlKind::ServiceTask | XmlKind::UserTask | XmlKind::ScriptTask => true,
        _ => false,
    }
}

/// Sets the draft's event definition to `e` when the draft is an event.
fn set_event(d: &mut ElementDraft, e: EventDraft)
    ensures
        draft_view(*final(d)) == with_event(draft_view(*old(d)), event_draft_view(e)),
{
    if event_kind(d.kind) {
        d.event = Some(e);
    }
}

/// What a nested tag of kind `n` with attributes `attrs` does to the
/// draft `d`: what the next text fills, and whether the current
/// association is an input one.
fn draft_nested(
    d: &mut ElementDraft,
    n: Option<XmlNested>,
    attrs: &Vec<Option<(Vec<u8>, Vec<u8>)>>,
    into_inputs: bool,
) -> (r: (Option<TextSlot>, bool))
    ensures
        draft_view(*final(d)) == element_nested(draft_view(*old(d)), n, attributes_view(attrs@), into_inputs).0,
        r.0 == element_nested(draft_view(*old(d)), n, attributes_view(attrs@), into_inputs).1,
        r.1 == element_nested(draft_view(*old(d)), n, attributes_view(attrs@), into_inputs).2,
{
    match n {
        Some(XmlNested::MessageDefinition) => {
            set_event(d, EventDraft::Message(attribute_value(attrs, "messageRef")));
            (None, into_inputs)
        },
        Some(XmlNested::TimerDefinition) => {
            set_event(d, EventDraft::Timer(None));
            (None, into_inputs)
        },
        Some(XmlNested::SignalDefinition) => {
            set_event(d, EventDraft::Signal(attribute_value(attrs, "signalRef")));
            (None, into_inputs)
        },
        Some(XmlNested::ErrorDefinition) => {
            set_event(d, EventDraft::Error(attribute_value(attrs, "errorRef")));
            (None, into_inputs)
        },
        Some(XmlNested::EscalationDefinition) => {
            set_event(d, EventDraft::Escalation(attribute_value(attrs, "escalationRef")));
            (None, into_inputs)
        },
        Some(XmlNested::TerminateDefinition) => {
            set_event(d, EventDraft::Terminate);
            (None, into_inputs)
        },
        Some(XmlNested::CancelDefinition) => {
            set_event(d, EventDraft::Cancel);
            (None, into_inputs)
        },
        Some(XmlNested::CompensateDefinition) => {
            set_event(d, EventDraft::Compensation(attribute_value(attrs, "activityRef")));
            (None, into_inputs)
        },
        Some(XmlNested::LinkDefinition) => {
            set_event(d, EventDraft::Link(attribute_value(attrs, "name")));
            (None, into_inputs)
        },
        Some(XmlNested::ConditionalDefinition) => {
            set_event(d, EventDraft::Conditional(None));
            (None, into_inputs)
        },
        Some(XmlNested::EventCondition) => {
            let conditional = match &d.event {
                Some(EventDraft::Conditional(_)) => true,
                _ => false,
            };
            if conditional {
                let body = String::new();
                proof {
                    assert(body@ =~= Seq::<char>::empty());
                }
                d.event = Some(
                    EventDraft::Conditional(
                        Some(ConditionExpression { language: attribute_value(attrs, "language"), body }),
                    ),
                );
            }
            (Some(TextSlot::EventConditionBody), into_inputs)
        },
        Some(XmlNested::TimeText) => (Some(TextSlot::TimeDefinition), into_inputs),
        Some(XmlNested::MultiInstance) => {
            if loop_kind(d.kind) {
                let parallel = match attribute_value(attrs, "isParallel") {
                    Some(v) => crate::text::str_eq(v.as_str(), "true"),
                    None => false,
                };
                d.has_multi = true;
                d.is_parallel = parallel;
                d.cardinality = None;
                d.completion = None;
                d.behavior = attribute_value(attrs, "behavior");
            }
            (None, into_inputs)
        },
        Some(XmlNested::LoopCardinality) => (Some(TextSlot::LoopCardinality), into_inputs),
        Some(XmlNested::CompletionCondition) => (Some(TextSlot::CompletionCondition), into_inputs),
        Some(XmlNested::InputAssociation) => {
            if d.kind == XmlKind::CallActivity {
                let ghost before = d.inputs@;
                let a = DataAssociation { source_ref: None, target_ref: None, transformation: None };
                d.inputs.push(a);
                proof {
                    lemma_map_push(before, a, |a: DataAssociation| assoc_view(a));
                }
                (None, true)
            } else {
                (None, into_inputs)
            }
        },
        Some(XmlNested::OutputAssociation) => {
            if d.kind == XmlKind::CallActivity {
                let ghost before = d.outputs@;
                let a = DataAssociation { source_ref: None, target_ref: None, transformation: None };
                d.outputs.push(a);
                proof {
                    lemma_map_push(before, a, |a: DataAssociation| assoc_view(a));
                }
                (None, false)
            } else {
                (None, into_inputs)
            }
        },
        Some(XmlNested::SourceRef) => (Some(TextSlot::SourceRef), into_inputs),
        Some(XmlNested::TargetRef) => (Some(TextSlot::TargetRef), into_inputs),
        Some(XmlNested::Transformation) => (Some(TextSlot::Transformation), into_inputs),
        Some(XmlNested::Documentation) => (Some(TextSlot::Documentation), into_inputs),
        Some(XmlNested::Script) => (Some(TextSlot::Script), into_inputs),
        _ => (None, into_inputs),
    }
}

/// Sets the part `field` of the last association in `v` to `text`.
fn set_last(v: &mut Vec<DataAssociation>, field: AssocField, text: String)
    ensures
        assocs_view(final(v)@) == set_last_ref(assocs_view(old(v)@), field, text@),
{
    let ghost before = v@;
    match v.pop() {
        Some(p) => {
            let ghost rest = v@;
            let q = match field {
                AssocField::Source => DataAssociation { source_ref: Some(text), ..p },
                AssocField::Target => DataAssociation { target_ref: Some(text), ..p },
                AssocField::Transformation => DataAssociation { transformation: Some(text), ..p },
            };
            v.push(q);
            proof {
                assert(before.drop_last() == rest);
                lemma_map_push(rest, q, |a: DataAssociation| assoc_view(a));
                assert(assocs_view(v@) =~= set_last_ref(assocs_view(before), field, text@));
            }
        },
        None => {
            proof {
                assert(assocs_view(before) =~= Seq::<XmlAssoc>::empty());
            }
        },
    }
}

/// Sets the part `field` of the draft's last input (`into_inputs`) or
/// output association to `text`.
fn set_assoc_text(d: &mut ElementDraft, into_inputs: bool, field: AssocField, text: String)
    ensures
        draft_view(*final(d)) == with_assoc_text(draft_view(*old(d)), into_inputs, field, text@),
{
    if into_inputs {
        set_last(&mut d.inputs, field, text);
    } else {
        set_last(&mut d.outputs, field, text);
    }
}

/// What the text `text`, filling `slot`, does to the draft `d`.
fn draft_text(d: &mut ElementDraft, slot: Option<TextSlot>, into_inputs: bool, text: String)
    ensures
        draft_view(*final(d)) == element_text(draft_view(*old(d)), slot, into_inputs, text@),
{
    match slot {
        Some(TextSlot::TimeDefinition) => {
            let timer = match &d.event {
                Some(EventDraft::Timer(_)) => true,
                _ => false,
            };
            if timer {
                d.event = Some(EventDraft::Timer(Some(text)));
            }
        },
        Some(TextSlot::LoopCardinality) => {
            if d.has_multi {
                let chars = chars_of(text.as_str());
                d.cardinality = parse_i32(&chars);
            }
        },
        Some(TextSlot::CompletionCondition) => {
            if d.has_multi {
                d.completion = Some(text);
            }
        },
        Some(TextSlot::SourceRef) => set_assoc_text(d, into_inputs, AssocField::Source, text),
        Some(TextSlot::TargetRef) => set_assoc_text(d, into_inputs, AssocField::Target, text),
        Some(TextSlot::Transformation) => set_assoc_text(d, into_inputs, AssocField::Transformation, text),
        Some(TextSlot::EventConditionBody) => {
            let language = match &d.event {
                Some(EventDraft::Conditional(Some(c))) => Some(copy_opt(&c.language)),
                _ => None,
            };
            match language {
                Some(l) => {
                    d.event = Some(EventDraft::Conditional(Some(ConditionExpression { language: l, body: text })));
                },
                None => {},
            }
        },
        Some(TextSlot::Documentation) => {
            d.documentation = Some(text);
        },
        Some(TextSlot::Script) => {
            if d.kind == XmlKind::ScriptTask {
                d.script = Some(text);
            }
        },
        _ => {},
    }
}

/// What a nested tag of kind `n` with attributes `attrs` does to the flow
/// `f`: what the next text fills.
fn flow_nested_tag(f: &mut SequenceFlow, n: Option<XmlNested>, attrs: &Vec<Option<(Vec<u8>, Vec<u8>)>>) -> (r:
    Option<TextSlot>)
    ensures
        flow_view(*final(f)) == flow_nested(flow_view(*old(f)), n, attributes_view(attrs@)).0,
        r == flow_nested(flow_view(*old(f)), n, attributes_view(attrs@)).1,
{
    match n {
        Some(XmlNested::ConditionExpression) => {
            let body = String::new();
            proof {
                assert(body@ =~= Seq::<char>::empty());
            }
            f.condition_expression = Some(
                ConditionExpression { language: attribute_value(attrs, "language"), body },
            );
            Some(TextSlot::ConditionBody)
        },
        _ => None,
    }
}

/// What the text `text`, filling `slot`, does to the flow `f`.
fn flow_text_of(f: &mut SequenceFlow, slot: Option<TextSlot>, text: String)
    ensures
        flow_view(*final(f)) == flow_text(flow_view(*old(f)), slot, text@),
{
    match slot {
        Some(TextSlot::ConditionBody) => {
            let language = match &f.condition_expression {
                Some(c) => Some(copy_opt(&c.language)),
                None => None,
            };
            match language {
                Some(l) => {
                    f.condition_expression = Some(ConditionExpression { language: l, body: text });
                },
                None => {},
            }
        },
        _ => {},
    }
}

/// The event definition a draft describes.
fn event_definition_of(e: EventDraft) -> (r: EventDefinition)
    ensures
        event_is(Some(r), Some(event_draft_view(e))),
{
    match e {
        EventDraft::Message(message_ref) => EventDefinition::Message { message_ref },
        EventDraft::Timer(time_definition) => EventDefinition::Timer { time_definition },
        EventDraft::Signal(signal_ref) => EventDefinition::Signal { signal_ref },
        EventDraft::Error(error_ref) => EventDefinition::Error { error_ref },
        EventDraft::Escalation(escalation_ref) => EventDefinition::Escalation { escalation_ref },
        EventDraft::Terminate => EventDefinition::Terminate,
        EventDraft::Cancel => EventDefinition::Cancel,
        EventDraft::Compensation(activity_ref) => EventDefinition::Compensation { activity_ref },
        EventDraft::Link(name) => EventDefinition::Link { name },
        EventDraft::Conditional(condition) => EventDefinition::Conditional { condition },
    }
}

/// Data associations are those their XML view describes.
pub proof fn lemma_assocs_are_view(s: Seq<DataAssociation>)
    ensures
        assocs_are(s, assocs_view(s)),
{
    assert forall|i: int| #![trigger s[i]] 0 <= i < s.len() implies opt_is(s[i].source_ref, assocs_view(s)[i].source)
        && opt_is(s[i].target_ref, assocs_view(s)[i].target) && opt_is(
        s[i].transformation,
        assocs_view(s)[i].transformation,
    ) by {
        assert(assocs_view(s)[i] == assoc_view(s[i]));
    }
}

/// The element a draft describes.
fn build_element(d: ElementDraft) -> (e: ProcessElement)
    ensures
        element_is(e@, draft_view(d)),
{
    let ghost x = draft_view(d);
    proof {
        lemma_assocs_are_view(d.inputs@);
        lemma_assocs_are_view(d.outputs@);
    }
    let inputs = d.inputs;
    let outputs = d.outputs;
    let base = ElementBase { id: d.id, name: d.name, documentation: d.documentation };
    let event_definition = match d.event {
        Some(e) => Some(event_definition_of(e)),
        None => None,
    };
    let loop_characteristics = if d.has_multi {
        Some(
            MultiInstanceLoopCharacteristics {
                is_parallel: d.is_parallel,
                loop_cardinality: d.cardinality,
                completion_condition: d.completion,
                behavior: d.behavior,
            },
        )
    } else {
        None
    };
    match d.kind {
        XmlKind::StartEvent => ProcessElement::StartEvent(StartEvent { base, event_definition }),
        XmlKind::EndEvent => ProcessElement::EndEvent(EndEvent { base, event_definition }),
        XmlKind::IntermediateCatchEvent => ProcessElement::IntermediateCatchEvent(
            IntermediateCatchEvent { base, event_definition },
        ),
        XmlKind::IntermediateThrowEvent => ProcessElement::IntermediateThrowEvent(
            IntermediateThrowEvent { base, event_definition },
        ),
        XmlKind::ServiceTask => {
            let io_mapping = IoMapping::default();
            proof {
                assert(io_mapping@.input_parameters =~= Seq::<crate::model::elements::IoParameter>::empty());
                assert(io_mapping@.output_parameters =~= Seq::<crate::model::elements::IoParameter>::empty());
            }
            ProcessElement::ServiceTask(
                ServiceTask {
                    base,
                    implementation: d.first,
                    operation_ref: d.second,
                    io_mapping,
                    loop_characteristics,
                },
            )
        },
        XmlKind::UserTask => ProcessElement::UserTask(
            UserTask { base, assignment: None, form_key: d.first, loop_characteristics },
        ),
        XmlKind::ScriptTask => ProcessElement::ScriptTask(
            ScriptTask { base, script_format: d.first, script: d.script, loop_characteristics },
        ),
        XmlKind::ManualTask => ProcessElement::ManualTask(ManualTask { base }),
        XmlKind::ExclusiveGateway => ProcessElement::ExclusiveGateway(ExclusiveGateway { base, default_flow: d.first }),
        XmlKind::ParallelGateway => ProcessElement::ParallelGateway(
            ParallelGateway { base, default_flow: d.first, gateway_direction: d.direction },
        ),
        XmlKind::InclusiveGateway => ProcessElement::InclusiveGateway(InclusiveGateway { base, default_flow: d.first }),
        XmlKind::CallActivity => ProcessElement::CallActivity(
            CallActivity {
                base,
                called_element: d.first,
                business_key: d.second,
                data_input_associations: inputs,
                data_output_associations: outputs,
            },
        ),
        XmlKind::DataObject => ProcessElement::DataObject(DataObject { base, data_state: d.first }),
        XmlKind::DataInput => ProcessElement::DataInput(DataInput { base, input_set: None }),
        XmlKind::DataOutput => ProcessElement::DataOutput(DataOutput { base, output_set: None }),
        XmlKind::DataObjectReference => ProcessElement::DataObjectReference(
            DataObjectReference { base, data_object_ref: d.first },
        ),
    }
}

/// What the text `text`, filling `slot`, does to the open element or flow.
fn read_text_into(
    open_element: &mut Option<ElementDraft>,
    open_flow: &mut Option<SequenceFlow>,
    slot: Option<TextSlot>,
    into_inputs: bool,
    text: String,
)
    ensures
        open_view(*final(open_element), *final(open_flow)) == match open_view(*old(open_element), *old(open_flow)) {
            Some(XmlItem::Element(x)) => Some(XmlItem::Element(element_text(x, slot, into_inputs, text@))),
            Some(XmlItem::Flow(x)) => Some(XmlItem::Flow(flow_text(x, slot, text@))),
            None => None,
        },
{
    match open_element {
        Some(d) => {
            draft_text(d, slot, into_inputs, text);
        },
        None => match open_flow {
            Some(f) => {
                flow_text_of(f, slot, text);
            },
            None => {},
        },
    }
}

/// Closes the open element or flow: puts it in place of any element or
/// flow with its ID.
fn close_open(
    elements: &mut Vec<ProcessElement>,
    flows: &mut Vec<SequenceFlow>,
    open_element: Option<ElementDraft>,
    open_flow: Option<SequenceFlow>,
    Ghost(st): Ghost<XmlRead>,
)
    requires
        read_so_far(elements_view(old(elements)@), old(flows)@, st),
        st.open == open_view(open_element, open_flow),
    ensures
        read_so_far(elements_view(final(elements)@), final(flows)@, flush(st)),
{
    match open_element {
        Some(d) => {
            let ghost x = draft_view(d);
            let e = build_element(d);
            proof {
                lemma_upsert_related(
                    elements_view(elements@),
                    st.elements,
                    element_key(),
                    xml_element_key(),
                    e@,
                    x,
                    element_rel(),
                );
            }
            upsert_element(elements, e);
        },
        None => match open_flow {
            Some(f) => {
                proof {
                    lemma_upsert_related(flows@, st.flows, flow_key(), xml_flow_key(), f, flow_view(f), flow_rel());
                }
                upsert_flow(flows, f);
            },
            None => {},
        },
    }
}

/// The process definition that the XML events `events` describe, read up to
/// the reader's error `error` if any: that error, or that the events name no
/// process, is an error.
pub fn definition_from_xml_events(events: &Vec<XmlEvent>, error: &Option<String>) -> (r: Result<
    ProcessDefinition,
    ParseError,
>)
    ensures
        match xml_result(events_view(events@), opt_text(*error)) {
            Ok(st) => r matches Ok(d) && definition_is(d@, st),
            Err(m) => r matches Err(ParseError::Xml(e)) && e@ == m,
        },
{
    let ghost ev = events_view(events@);
    let mut process_id: Option<String> = None;
    let mut process_name: Option<String> = None;
    let mut is_executable = true;
    let mut elements: Vec<ProcessElement> = Vec::new();
    let mut flows: Vec<SequenceFlow> = Vec::new();
    let mut open_element: Option<ElementDraft> = None;
    let mut open_flow: Option<SequenceFlow> = None;
    let mut slot: Option<TextSlot> = None;
    let mut into_inputs = true;
    let mut depth: usize = 0;
    let ghost mut st = xml_start();
    proof {
        assert(ev.take(0) =~= Seq::<XmlEventView>::empty());
    }
    for i in 0..events.len()
        invariant
            ev == events_view(events@),
            ev.len() == events.len(),
            st == read_events(ev.take(i as int)),
            opt_is(process_id, st.process_id),
            opt_is(process_name, st.process_name),
            is_executable == st.is_executable,
            read_so_far(elements_view(elements@), flows@, st),
            st.open == open_view(open_element, open_flow),
            slot == st.slot,
            into_inputs == st.into_inputs,
            depth == st.depth,
            depth <= i,
    {
        proof {
            assert(ev.take(i + 1).drop_last() =~= ev.take(i as int));
            assert(ev.take(i + 1).last() == events@[i as int]@);
        }
        match &events[i] {
            XmlEvent::Tag(name, attributes) => {
                let ghost av = attributes_view(attributes@);
                let kind = kind_of_tag(name);
                let process = is_tag(name, "process");
                let flow = is_tag(name, "sequenceFlow");
                if process || kind.is_some() || flow {
                    close_open(&mut elements, &mut flows, open_element, open_flow, Ghost(st));
                    open_element = None;
                    open_flow = None;
                    slot = None;
                    depth = if process {
                        0
                    } else {
                        1
                    };
                    if process {
                        let id = attribute_value(attributes, "id");
                        if id.is_some() {
                            process_id = id;
                        }
                        let pname = attribute_value(attributes, "name");
                        if pname.is_some() {
                            process_name = pname;
                        }
                        match attribute_value(attributes, "isExecutable") {
                            Some(v) => {
                                is_executable = crate::text::str_eq(v.as_str(), "true");
                            },
                            None => {},
                        }
                    } else {
                        match kind {
                            Some(k) => {
                                match attribute_value(attributes, "id") {
                                    Some(id) => {
                                        open_element = Some(new_draft(k, id, attributes));
                                    },
                                    None => {},
                                }
                            },
                            None => {
                                let id = attribute_value(attributes, "id");
                                let source = attribute_value(attributes, "sourceRef");
                                let target = attribute_value(attributes, "targetRef");
                                match (id, source, target) {
                                    (Some(id), Some(source), Some(target)) => {
                                        open_flow = Some(
                                            SequenceFlow {
                                                id,
                                                name: attribute_value(attributes, "name"),
                                                source_ref: source,
                                                target_ref: target,
                                                condition_expression: None,
                                            },
                                        );
                                    },
                                    _ => {},
                                }
                            },
                        }
                    }
                } else if depth == 0 {
                    slot = None;
                } else {
                    let n = nested_of(name);
                    depth = depth + 1;
                    match open_element {
                        Some(mut d) => {
                            let r = draft_nested(&mut d, n, attributes, into_inputs);
                            slot = r.0;
                            into_inputs = r.1;
                            open_element = Some(d);
                        },
                        None => match open_flow {
                            Some(mut f) => {
                                slot = flow_nested_tag(&mut f, n, attributes);
                                open_flow = Some(f);
                            },
                            None => {
                                slot = None;
                            },
                        },
                    }
                }
                proof {
                    st = read_tag(st, name@, av);
                }
            },
            XmlEvent::Text(bytes) => {
                let text = decode_text(bytes);
                read_text_into(&mut open_element, &mut open_flow, slot, into_inputs, text);
                proof {
                    st = read_text(st, text_decoded(bytes@));
                }
            },
            XmlEvent::CData(bytes) => {
                let text = text_of_bytes(bytes);
                read_text_into(&mut open_element, &mut open_flow, slot, into_inputs, text);
                proof {
                    st = read_text(st, lossy_utf8(bytes@));
                }
            },
            XmlEvent::End => {
                slot = None;
                if depth > 0 {
                    depth = depth - 1;
                }
                proof {
                    st = XmlRead { slot: None, depth: if st.depth > 0 { (st.depth - 1) as nat } else { 0 }, ..st };
                }
            },
            XmlEvent::Other => {
                slot = None;
                proof {
                    st = XmlRead { slot: None, ..st };
                }
            },
        }
    }
    proof {
        assert(ev.take(ev.len() as int) =~= ev);
    }
    close_open(&mut elements, &mut flows, open_element, open_flow, Ghost(st));
    match error {
        Some(m) => {
            return Err(ParseError::Xml("XML parse error: ".to_owned().concat(m.as_str())));
        },
        None => {},
    }
    match process_id {
        Some(id) => Ok(ProcessDefinition {
            id,
            name: process_name,
            process_type: "process".to_owned(),
            is_executable,
            elements,
            flows,
            variables: Vec::new(),
        }),
        None => Err(ParseError::Xml("Process ID not found".to_owned())),
    }
}

/// Parses BPMN 2.0 XML into a process definition.
pub fn parse_bpmn_xml(xml: &str) -> (r: Result<ProcessDefinition, ParseError>)
    ensures
        match xml_result(xml_events(xml@).0, xml_events(xml@).1) {
            Ok(st) => r matches Ok(d) && definition_is(d@, st),
            Err(m) => r matches Err(ParseError::Xml(e)) && e@ == m,
        },
{
    let (events, error) = read_xml_events(xml);
    definition_from_xml_events(&events, &error)
}

/// Closing the open element or flow keeps the IDs read distinct.
proof fn lemma_flush_distinct(st: XmlRead)
    requires
        distinct_keys(st.elements, xml_element_key()),
        distinct_keys(st.flows, xml_flow_key()),
    ensures
        distinct_keys(flush(st).elements, xml_element_key()),
        distinct_keys(flush(st).flows, xml_flow_key()),
{
    match st.open {
        Some(XmlItem::Element(x)) => lemma_upsert_distinct(st.elements, xml_element_key(), x),
        Some(XmlItem::Flow(x)) => lemma_upsert_distinct(st.flows, xml_flow_key(), x),
        None => {},
    }
}

/// The elements and flows read from XML events have distinct IDs.
proof fn lemma_read_distinct(events: Seq<XmlEventView>)
    ensures
        distinct_keys(read_events(events).elements, xml_element_key()),
        distinct_keys(read_events(events).flows, xml_flow_key()),
    decreases events.len(),
{
    if events.len() > 0 {
        let st = read_events(events.drop_last());
        lemma_read_distinct(events.drop_last());
        lemma_flush_distinct(st);
    }
}

/// A definition parsed from BPMN 2.0 XML has distinct element and flow IDs:
/// an element or flow with the ID of an earlier one replaces it.
pub proof fn law_xml_definition_ids_distinct(
    events: Seq<XmlEventView>,
    error: Option<Seq<char>>,
    d: ProcessDefinitionView,
)
    requires
        xml_result(events, error) matches Ok(st) && definition_is(d, st),
    ensures
        distinct_ids(d),
{
    let st = flush(read_events(events));
    lemma_read_distinct(events);
    lemma_flush_distinct(read_events(events));
    assert forall|i: int, j: int| 0 <= i < j < d.elements.len() implies element_key()(
        #[trigger] d.elements[i],
    ) != element_key()(#[trigger] d.elements[j]) by {
        assert(element_is(d.elements[i], st.elements[i]));
        assert(element_is(d.elements[j], st.elements[j]));
        assert(xml_element_key()(st.elements[i]) != xml_element_key()(st.elements[j]));
    }
    assert forall|i: int, j: int| 0 <= i < j < d.flows.len() implies flow_key()(#[trigger] d.flows[i])
        != flow_key()(#[trigger] d.flows[j]) by {
        assert(flow_is(d.flows[i], st.flows[i]));
        assert(flow_is(d.flows[j], st.flows[j]));
        assert(xml_flow_key()(st.flows[i]) != xml_flow_key()(st.flows[j]));
    }
}

} // verus!
