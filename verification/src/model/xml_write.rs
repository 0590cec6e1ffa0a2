//! BPMN 2.0 XML: writing a process definition as the events of an XML
//! writer.
//!
//! quick_xml writes the XML, escaping attribute values and texts; which
//! events a definition is written as is decided here: every element with
//! its tag, attributes, documentation, event definition, loop
//! characteristics, script and data associations, and every flow with its
//! name and condition expression.

use vstd::prelude::*;
use vstd::utf8::{decode_utf8, valid_utf8};
use quick_xml::events::{BytesDecl, BytesEnd, BytesStart, BytesText, Event};
use quick_xml::Writer;
use crate::engine::context::GatewayDirection;
use crate::lists::lemma_map_push;
use crate::model::elements::{
    ConditionExpression, DataAssociation, ElementBase, EventDefinition, MultiInstanceLoopCharacteristics,
    ProcessDefinition, ProcessDefinitionView, ProcessElement, ProcessElementView, SequenceFlow,
};
use crate::model::format::SerializeError;
use crate::text::{chars_of, decimal_text, int_text};

verus! {

/// The BPMN 2.0 model namespace.
pub const BPMN2_NAMESPACE: &'static str = "http://www.omg.org/spec/BPMN/20100524/MODEL";
/// The BPMN 2.0 diagram interchange namespace.
pub const BPMNDI_NAMESPACE: &'static str = "http://www.omg.org/spec/BPMN/20100524/DI";
/// The diagram commons namespace.
pub const DC_NAMESPACE: &'static str = "http://www.omg.org/spec/DD/20100524/DC";
/// The diagram interchange namespace.
pub const DI_NAMESPACE: &'static str = "http://www.omg.org/spec/DD/20100524/DI";

/// An XML event to write.
#[derive(Debug)]
pub enum XmlOut {
    /// The XML declaration, with its version and encoding.
    Declaration { version: String, encoding: Option<String> },
    /// A tag with its attributes, in order: an empty-element tag when
    /// `empty`, else a start tag.
    Tag { name: String, attributes: Vec<(String, String)>, empty: bool },
    /// Text, which the writer escapes.
    Text { text: String },
    /// An end tag.
    End { name: String },
}

/// The content of an XML event to write.
pub enum XmlOutView {
    Declaration { version: Seq<char>, encoding: Option<Seq<char>> },
    Tag { name: Seq<char>, attributes: Seq<(Seq<char>, Seq<char>)>, empty: bool },
    Text { text: Seq<char> },
    End { name: Seq<char> },
}

/// The texts of a sequence of attributes.
pub open spec fn pairs_view(a: Seq<(String, String)>) -> Seq<(Seq<char>, Seq<char>)> {
    a.map_values(|p: (String, String)| (p.0@, p.1@))
}

impl View for XmlOut {
    type V = XmlOutView;

    open spec fn view(&self) -> XmlOutView {
        match self {
            XmlOut::Declaration { version, encoding } => XmlOutView::Declaration {
                version: version@,
                encoding: match encoding {
                    Some(e) => Some(e@),
                    None => None,
                },
            },
            XmlOut::Tag { name, attributes, empty } => XmlOutView::Tag {
                name: name@,
                attributes: pairs_view(attributes@),
                empty: *empty,
            },
            XmlOut::Text { text } => XmlOutView::Text { text: text@ },
            XmlOut::End { name } => XmlOutView::End { name: name@ },
        }
    }
}

/// The content of a sequence of XML events to write.
pub open spec fn outs_view(events: Seq<XmlOut>) -> Seq<XmlOutView> {
    events.map_values(|e: XmlOut| e@)
}

/// What quick_xml's `Writer` (without indentation, into memory) writes for
/// `events`.
pub uninterp spec fn xml_written(events: Seq<XmlOutView>) -> Seq<u8>;

/// Calls `quick_xml::Writer::write_event` for each of `events`, in order,
/// on a writer made by `Writer::new` over an empty `Vec<u8>`; what it
/// writes is named `xml_written`. The writer fails only where its output
/// does, and writing into a `Vec<u8>` does not fail; every byte it writes
/// comes from the events' strings (attribute values and texts escaped) or
/// is ASCII markup, so the bytes are UTF-8.
#[verifier::external_body]
fn write_xml_events(events: &Vec<XmlOut>) -> (r: Result<Vec<u8>, String>)
    ensures
        match r {
            Ok(v) => v@ == xml_written(outs_view(events@)) && valid_utf8(v@),
            Err(_) => false,
        },
{
    let mut writer = Writer::new(Vec::new());
    for ev in events {
        writer.write_event(match ev {
            XmlOut::Declaration { version, encoding } => Event::Decl(BytesDecl::new(version, encoding.as_deref(), None)),
            XmlOut::Tag { name, attributes, empty } => {
                let t = BytesStart::new(name).with_attributes(attributes.iter().map(|(k, v)| (k.as_str(), v.as_str())));
                if *empty { Event::Empty(t) } else { Event::Start(t) }
            },
            XmlOut::Text { text } => Event::Text(BytesText::new(text)),
            XmlOut::End { name } => Event::End(BytesEnd::new(name)),
        }).map_err(|e| e.to_string())?;
    }
    Ok(writer.into_inner())
}

/// How `std::string::FromUtf8Error` describes why `bytes` are not UTF-8.
pub uninterp spec fn utf8_error_text(bytes: Seq<u8>) -> Seq<char>;

/// Calls `String::from_utf8`: valid UTF-8 becomes its text; otherwise the
/// error's description, named `utf8_error_text`.
#[verifier::external_body]
fn string_from_utf8(bytes: Vec<u8>) -> (r: Result<String, String>)
    ensures
        match r {
            Ok(s) => valid_utf8(bytes@) && s@ == decode_utf8(bytes@),
            Err(e) => !valid_utf8(bytes@) && e@ == utf8_error_text(bytes@),
        },
{
    String::from_utf8(bytes).map_err(|e| e.to_string())
}

/// The attribute `key` with the text of `value`, when there is one.
pub open spec fn opt_attribute(key: Seq<char>, value: Option<String>) -> Seq<(Seq<char>, Seq<char>)> {
    match value {
        Some(v) => seq![(key, v@)],
        None => Seq::empty(),
    }
}

/// The attributes `id` and, when there is one, `name`.
pub open spec fn named_attributes(id: Seq<char>, name: Option<String>) -> Seq<(Seq<char>, Seq<char>)> {
    seq![("id"@, id)] + opt_attribute("name"@, name)
}

/// `true` or `false`.
pub open spec fn bool_text(b: bool) -> Seq<char> {
    if b {
        "true"@
    } else {
        "false"@
    }
}

/// The tag `name` with `attributes` around the text `text`.
pub open spec fn text_element(name: Seq<char>, attributes: Seq<(Seq<char>, Seq<char>)>, text: Seq<char>) -> Seq<
    XmlOutView,
> {
    seq![
        XmlOutView::Tag { name, attributes, empty: false },
        XmlOutView::Text { text },
        XmlOutView::End { name },
    ]
}

/// The tag `name` around the text of `value`, when there is one.
pub open spec fn opt_text_element(name: Seq<char>, value: Option<String>) -> Seq<XmlOutView> {
    match value {
        Some(v) => text_element(name, Seq::empty(), v@),
        None => Seq::empty(),
    }
}

/// The tag `name` with `attributes` around `children`: an empty-element tag
/// when there are none.
pub open spec fn wrapped(name: Seq<char>, attributes: Seq<(Seq<char>, Seq<char>)>, children: Seq<XmlOutView>) -> Seq<
    XmlOutView,
> {
    if children.len() == 0 {
        seq![XmlOutView::Tag { name, attributes, empty: true }]
    } else {
        seq![XmlOutView::Tag { name, attributes, empty: false }] + children + seq![XmlOutView::End { name }]
    }
}

/// The events of the `out` that the events `a` and then `b` make.
pub proof fn lemma_outs_concat(a: Seq<XmlOut>, b: Seq<XmlOut>)
    ensures
        outs_view(a + b) == outs_view(a) + outs_view(b),
{
    assert(outs_view(a + b) =~= outs_view(a) + outs_view(b));
}

/// Adds `x` to `out`.
fn push_out(out: &mut Vec<XmlOut>, x: XmlOut)
    ensures
        outs_view(final(out)@) == outs_view(old(out)@).push(x@),
{
    let ghost before = out@;
    out.push(x);
    proof {
        lemma_map_push(before, x, |e: XmlOut| e@);
    }
}

/// Adds the attribute `key="value"` to `attrs`.
fn push_pair(attrs: &mut Vec<(String, String)>, key: &str, value: &str)
    ensures
        pairs_view(final(attrs)@) == pairs_view(old(attrs)@).push((key@, value@)),
{
    let ghost before = attrs@;
    let p = (key.to_owned(), value.to_owned());
    attrs.push(p);
    proof {
        lemma_map_push(before, p, |p: (String, String)| (p.0@, p.1@));
    }
}

/// Adds the attribute `key` with the text of `value`, when there is one,
/// to `attrs`.
fn push_opt_pair(attrs: &mut Vec<(String, String)>, key: &str, value: &Option<String>)
    ensures
        pairs_view(final(attrs)@) == pairs_view(old(attrs)@) + opt_attribute(key@, *value),
{
    match value {
        Some(v) => {
            push_pair(attrs, key, v.as_str());
            proof {
                assert(pairs_view(attrs@) =~= pairs_view(old(attrs)@) + opt_attribute(key@, *value));
            }
        },
        None => {
            proof {
                assert(pairs_view(attrs@) =~= pairs_view(old(attrs)@) + opt_attribute(key@, *value));
            }
        },
    }
}

/// The attributes `id` and, when there is one, `name`.
fn named(id: &String, name: &Option<String>) -> (r: Vec<(String, String)>)
    ensures
        pairs_view(r@) == named_attributes(id@, *name),
{
    let mut r: Vec<(String, String)> = Vec::new();
    push_pair(&mut r, "id", id.as_str());
    push_opt_pair(&mut r, "name", name);
    proof {
        assert(pairs_view(r@) =~= named_attributes(id@, *name));
    }
    r
}

/// Adds the tag `name` with `attributes` around the text `text` to `out`.
fn push_text_element(out: &mut Vec<XmlOut>, name: &str, attributes: Vec<(String, String)>, text: &str)
    ensures
        outs_view(final(out)@) == outs_view(old(out)@) + text_element(name@, pairs_view(attributes@), text@),
{
    let ghost a = pairs_view(attributes@);
    push_out(out, XmlOut::Tag { name: name.to_owned(), attributes, empty: false });
    push_out(out, XmlOut::Text { text: text.to_owned() });
    push_out(out, XmlOut::End { name: name.to_owned() });
    proof {
        assert(outs_view(out@) =~= outs_view(old(out)@) + text_element(name@, a, text@));
    }
}

/// Adds the tag `name` around the text of `value`, when there is one, to
/// `out`.
fn push_opt_text_element(out: &mut Vec<XmlOut>, name: &str, value: &Option<String>)
    ensures
        outs_view(final(out)@) == outs_view(old(out)@) + opt_text_element(name@, *value),
{
    match value {
        Some(v) => {
            push_text_element(out, name, Vec::new(), v.as_str());
            proof {
                assert(pairs_view(Seq::<(String, String)>::empty()) =~= Seq::empty());
            }
        },
        None => {
            proof {
                assert(outs_view(out@) =~= outs_view(old(out)@) + opt_text_element(name@, *value));
            }
        },
    }
}

/// Adds the tag `name` with `attributes` around `children` to `out`: an
/// empty-element tag when there are none.
fn push_wrapped(out: &mut Vec<XmlOut>, name: &str, attributes: Vec<(String, String)>, children: Vec<XmlOut>)
    ensures
        outs_view(final(out)@) == outs_view(old(out)@) + wrapped(name@, pairs_view(attributes@), outs_view(children@)),
{
    let ghost a = pairs_view(attributes@);
    let ghost c = outs_view(children@);
    if children.len() == 0 {
        push_out(out, XmlOut::Tag { name: name.to_owned(), attributes, empty: true });
        proof {
            assert(outs_view(out@) =~= outs_view(old(out)@) + wrapped(name@, a, c));
        }
    } else {
        push_out(out, XmlOut::Tag { name: name.to_owned(), attributes, empty: false });
        let ghost mid = out@;
        let ghost ch = children@;
        let mut rest = children;
        out.append(&mut rest);
        proof {
            lemma_outs_concat(mid, ch);
        }
        push_out(out, XmlOut::End { name: name.to_owned() });
        proof {
            assert(outs_view(out@) =~= outs_view(old(out)@) + wrapped(name@, a, c));
        }
    }
}

/// The tag of a timer's time definition `t`: a cycle when it starts with
/// `R` (a repetition), a duration when it starts with `P`, else a date.
pub open spec fn time_tag(t: Seq<char>) -> Seq<char> {
    if t.len() > 0 && t[0] == 'R' {
        "bpmn2:timeCycle"@
    } else if t.len() > 0 && t[0] == 'P' {
        "bpmn2:timeDuration"@
    } else {
        "bpmn2:timeDate"@
    }
}

/// The tag `tag` with the condition `c`'s language as an attribute around
/// its body, when there is a condition.
pub open spec fn condition_events(tag: Seq<char>, c: Option<ConditionExpression>) -> Seq<XmlOutView> {
    match c {
        Some(c) => text_element(tag, opt_attribute("language"@, c.language), c.body@),
        None => Seq::empty(),
    }
}

/// The events that write the event definition `d`: its tag with the
/// reference it holds as an attribute, a timer's time definition and a
/// conditional event's condition as children; nothing for none or an
/// unspecified one.
pub open spec fn event_definition_events(d: Option<EventDefinition>) -> Seq<XmlOutView> {
    match d {
        Some(EventDefinition::Message { message_ref }) => wrapped(
            "bpmn2:messageEventDefinition"@,
            opt_attribute("messageRef"@, message_ref),
            Seq::empty(),
        ),
        Some(EventDefinition::Timer { time_definition }) => wrapped(
            "bpmn2:timerEventDefinition"@,
            Seq::empty(),
            match time_definition {
                Some(t) => text_element(time_tag(t@), Seq::empty(), t@),
                None => Seq::empty(),
            },
        ),
        Some(EventDefinition::Signal { signal_ref }) => wrapped(
            "bpmn2:signalEventDefinition"@,
            opt_attribute("signalRef"@, signal_ref),
            Seq::empty(),
        ),
        Some(EventDefinition::Error { error_ref }) => wrapped(
            "bpmn2:errorEventDefinition"@,
            opt_attribute("errorRef"@, error_ref),
            Seq::empty(),
        ),
        Some(EventDefinition::Escalation { escalation_ref }) => wrapped(
            "bpmn2:escalationEventDefinition"@,
            opt_attribute("escalationRef"@, escalation_ref),
            Seq::empty(),
        ),
        Some(EventDefinition::Cancel) => wrapped("bpmn2:cancelEventDefinition"@, Seq::empty(), Seq::empty()),
        Some(EventDefinition::Compensation { activity_ref }) => wrapped(
            "bpmn2:compensateEventDefinition"@,
            opt_attribute("activityRef"@, activity_ref),
            Seq::empty(),
        ),
        Some(EventDefinition::Conditional { condition }) => wrapped(
            "bpmn2:conditionalEventDefinition"@,
            Seq::empty(),
            condition_events("bpmn2:condition"@, condition),
        ),
        Some(EventDefinition::Link { name }) => wrapped(
            "bpmn2:linkEventDefinition"@,
            opt_attribute("name"@, name),
            Seq::empty(),
        ),
        Some(EventDefinition::Terminate) => wrapped("bpmn2:terminateEventDefinition"@, Seq::empty(), Seq::empty()),
        Some(EventDefinition::Unspecified) => Seq::empty(),
        None => Seq::empty(),
    }
}

/// The events that write the loop characteristics `m`, when there are
/// some: whether they are parallel and their behavior as attributes, their
/// cardinality in decimal and their completion condition as children.
pub open spec fn loop_events(m: Option<MultiInstanceLoopCharacteristics>) -> Seq<XmlOutView> {
    match m {
        Some(m) => wrapped(
            "bpmn2:multiInstanceLoopCharacteristics"@,
            seq![("isParallel"@, bool_text(m.is_parallel))] + opt_attribute("behavior"@, m.behavior),
            match m.loop_cardinality {
                Some(c) => text_element("bpmn2:loopCardinality"@, Seq::empty(), int_text(c as int)),
                None => Seq::<XmlOutView>::empty(),
            } + opt_text_element("bpmn2:completionCondition"@, m.completion_condition),
        ),
        None => Seq::empty(),
    }
}

/// The events that write the data association `a` under the tag `tag`,
/// with its references and transformation as children.
pub open spec fn association_events(tag: Seq<char>, a: DataAssociation) -> Seq<XmlOutView> {
    wrapped(
        tag,
        Seq::empty(),
        opt_text_element("bpmn2:sourceRef"@, a.source_ref) + opt_text_element("bpmn2:targetRef"@, a.target_ref)
            + opt_text_element("bpmn2:transformation"@, a.transformation),
    )
}

/// The events that write the data associations `s` under the tag `tag`, in
/// order.
pub open spec fn associations_events(tag: Seq<char>, s: Seq<DataAssociation>) -> Seq<XmlOutView>
    decreases s.len(),
{
    if s.len() == 0 {
        Seq::empty()
    } else {
        associations_events(tag, s.drop_last()) + association_events(tag, s.last())
    }
}

/// The events that write an element's documentation, when it has one.
pub open spec fn documentation_events(b: ElementBase) -> Seq<XmlOutView> {
    opt_text_element("bpmn2:documentation"@, b.documentation)
}

/// The `gatewayDirection` attribute of a gateway whose direction is known.
pub open spec fn direction_attribute(d: GatewayDirection) -> Seq<(Seq<char>, Seq<char>)> {
    match d {
        GatewayDirection::Diverging => seq![("gatewayDirection"@, "Diverging"@)],
        GatewayDirection::Converging => seq![("gatewayDirection"@, "Converging"@)],
        GatewayDirection::Mixed => seq![("gatewayDirection"@, "Mixed"@)],
        GatewayDirection::Unknown => Seq::empty(),
    }
}

/// The tag of the element `e`.
pub open spec fn element_tag(e: ProcessElementView) -> Seq<char> {
    match e {
        ProcessElementView::StartEvent(_) => "bpmn2:startEvent"@,
        ProcessElementView::EndEvent(_) => "bpmn2:endEvent"@,
        ProcessElementView::IntermediateCatchEvent(_) => "bpmn2:intermediateCatchEvent"@,
        ProcessElementView::IntermediateThrowEvent(_) => "bpmn2:intermediateThrowEvent"@,
        ProcessElementView::ServiceTask(_) => "bpmn2:serviceTask"@,
        ProcessElementView::UserTask(_) => "bpmn2:userTask"@,
        ProcessElementView::ScriptTask(_) => "bpmn2:scriptTask"@,
        ProcessElementView::ManualTask(_) => "bpmn2:manualTask"@,
        ProcessElementView::ExclusiveGateway(_) => "bpmn2:exclusiveGateway"@,
        ProcessElementView::ParallelGateway(_) => "bpmn2:parallelGateway"@,
        ProcessElementView::InclusiveGateway(_) => "bpmn2:inclusiveGateway"@,
        ProcessElementView::DataObject(_) => "bpmn2:dataObject"@,
        ProcessElementView::DataInput(_) => "bpmn2:dataInput"@,
        ProcessElementView::DataOutput(_) => "bpmn2:dataOutput"@,
        ProcessElementView::DataObjectReference(_) => "bpmn2:dataObjectReference"@,
        ProcessElementView::CallActivity(_) => "bpmn2:callActivity"@,
    }
}

/// The attributes of the element `e`: its ID, its name, and what its kind
/// adds (a service task's implementation and operation, a user task's form
/// key, a script task's format, a gateway's default flow and a parallel
/// gateway's known direction, a call activity's called element and business
/// key, a data object's state, a data object reference's object).
pub open spec fn element_attributes(e: ProcessElementView) -> Seq<(Seq<char>, Seq<char>)> {
    let b = e.base();
    named_attributes(b.id@, b.name) + match e {
        ProcessElementView::ServiceTask(s) => opt_attribute("implementation"@, s.implementation) + opt_attribute(
            "operationRef"@,
            s.operation_ref,
        ),
        ProcessElementView::UserTask(s) => opt_attribute("formKey"@, s.form_key),
        ProcessElementView::ScriptTask(s) => opt_attribute("scriptFormat"@, s.script_format),
        ProcessElementView::ExclusiveGateway(s) => opt_attribute("default"@, s.default_flow),
        ProcessElementView::ParallelGateway(s) => opt_attribute("default"@, s.default_flow) + direction_attribute(
            s.gateway_direction,
        ),
        ProcessElementView::InclusiveGateway(s) => opt_attribute("default"@, s.default_flow),
        ProcessElementView::DataObject(s) => opt_attribute("dataState"@, s.data_state),
        ProcessElementView::DataObjectReference(s) => opt_attribute("dataObjectRef"@, s.data_object_ref),
        ProcessElementView::CallActivity(s) => opt_attribute("calledElement"@, s.called_element) + opt_attribute(
            "businessKey"@,
            s.business_key,
        ),
        _ => Seq::empty(),
    }
}

/// The children of the element `e`: its documentation, then an event's
/// definition, a task's loop characteristics and a script task's script, or
/// a call activity's input and output data associations.
pub open spec fn element_children(e: ProcessElementView) -> Seq<XmlOutView> {
    documentation_events(e.base()) + match e {
        ProcessElementView::StartEvent(s) => event_definition_events(s.event_definition),
        ProcessElementView::EndEvent(s) => event_definition_events(s.event_definition),
        ProcessElementView::IntermediateCatchEvent(s) => event_definition_events(s.event_definition),
        ProcessElementView::IntermediateThrowEvent(s) => event_definition_events(s.event_definition),
        ProcessElementView::ServiceTask(s) => loop_events(s.loop_characteristics),
        ProcessElementView::UserTask(s) => loop_events(s.loop_characteristics),
        ProcessElementView::ScriptTask(s) => loop_events(s.loop_characteristics) + opt_text_element(
            "bpmn2:script"@,
            s.script,
        ),
        ProcessElementView::CallActivity(s) => associations_events(
            "bpmn2:dataInputAssociation"@,
            s.data_input_associations,
        ) + associations_events("bpmn2:dataOutputAssociation"@, s.data_output_associations),
        _ => Seq::empty(),
    }
}

/// The events that write the element `e`.
pub open spec fn element_events(e: ProcessElementView) -> Seq<XmlOutView> {
    wrapped(element_tag(e), element_attributes(e), element_children(e))
}

/// The events that write the elements `es`, in order.
pub open spec fn elements_events(es: Seq<ProcessElementView>) -> Seq<XmlOutView>
    decreases es.len(),
{
    if es.len() == 0 {
        Seq::empty()
    } else {
        elements_events(es.drop_last()) + element_events(es.last())
    }
}

/// The events that write the flow `f`: its ID, name, source and target as
/// attributes, its condition expression as a child.
pub open spec fn flow_events(f: SequenceFlow) -> Seq<XmlOutView> {
    wrapped(
        "bpmn2:sequenceFlow"@,
        seq![("id"@, f.id@)] + opt_attribute("name"@, f.name) + seq![
            ("sourceRef"@, f.source_ref@),
            ("targetRef"@, f.target_ref@),
        ],
        condition_events("bpmn2:conditionExpression"@, f.condition_expression),
    )
}

/// The events that write the flows `fs`, in order.
pub open spec fn flows_events(fs: Seq<SequenceFlow>) -> Seq<XmlOutView>
    decreases fs.len(),
{
    if fs.len() == 0 {
        Seq::empty()
    } else {
        flows_events(fs.drop_last()) + flow_events(fs.last())
    }
}

/// The attributes of the `definitions` tag: the namespaces, its ID and its
/// target namespace.
pub open spec fn definitions_attributes() -> Seq<(Seq<char>, Seq<char>)> {
    seq![
        ("xmlns:bpmn2"@, BPMN2_NAMESPACE@),
        ("xmlns:bpmndi"@, BPMNDI_NAMESPACE@),
        ("xmlns:dc"@, DC_NAMESPACE@),
        ("xmlns:di"@, DI_NAMESPACE@),
        ("id"@, "Definitions"@),
        ("targetNamespace"@, "http://bpmn.io/schema/bpmn"@),
    ]
}

/// The attributes of the `process` tag of `d`.
pub open spec fn process_attributes(d: ProcessDefinitionView) -> Seq<(Seq<char>, Seq<char>)> {
    named_attributes(d.id@, d.name).push(("isExecutable"@, bool_text(d.is_executable)))
}

/// The events that write the definition `d`: the declaration, the
/// `definitions` and `process` tags, the elements, the flows, and the end
/// tags.
pub open spec fn definition_events(d: ProcessDefinitionView) -> Seq<XmlOutView> {
    seq![
        XmlOutView::Declaration { version: "1.0"@, encoding: Some("UTF-8"@) },
        XmlOutView::Tag { name: "bpmn2:definitions"@, attributes: definitions_attributes(), empty: false },
        XmlOutView::Tag { name: "bpmn2:process"@, attributes: process_attributes(d), empty: false },
    ] + elements_events(d.elements) + flows_events(d.flows) + seq![
        XmlOutView::End { name: "bpmn2:process"@ },
        XmlOutView::End { name: "bpmn2:definitions"@ },
    ]
}

/// The XML text that serializing `d` gives.
pub open spec fn serialized(d: ProcessDefinitionView) -> Seq<char> {
    decode_utf8(xml_written(definition_events(d)))
}

/// No attributes.
fn no_attributes() -> (r: Vec<(String, String)>)
    ensures
        pairs_view(r@) == Seq::<(Seq<char>, Seq<char>)>::empty(),
{
    let r: Vec<(String, String)> = Vec::new();
    proof {
        assert(pairs_view(r@) =~= Seq::<(Seq<char>, Seq<char>)>::empty());
    }
    r
}

/// No events.
fn no_events() -> (r: Vec<XmlOut>)
    ensures
        outs_view(r@) == Seq::<XmlOutView>::empty(),
{
    let r: Vec<XmlOut> = Vec::new();
    proof {
        assert(outs_view(r@) =~= Seq::<XmlOutView>::empty());
    }
    r
}

/// The tag of a timer whose time definition is `t`.
fn time_tag_of(t: &String) -> (r: &'static str)
    ensures
        r@ == time_tag(t@),
{
    let c = chars_of(t.as_str());
    if c.len() > 0 && c[0] == 'R' {
        "bpmn2:timeCycle"
    } else if c.len() > 0 && c[0] == 'P' {
        "bpmn2:timeDuration"
    } else {
        "bpmn2:timeDate"
    }
}

/// Adds the condition `c`, when there is one, under the tag `tag` to `out`.
fn push_condition(out: &mut Vec<XmlOut>, tag: &str, c: &Option<ConditionExpression>)
    ensures
        outs_view(final(out)@) == outs_view(old(out)@) + condition_events(tag@, *c),
{
    match c {
        Some(c) => {
            let mut a = no_attributes();
            push_opt_pair(&mut a, "language", &c.language);
            proof {
                assert(pairs_view(a@) =~= opt_attribute("language"@, c.language));
            }
            push_text_element(out, tag, a, c.body.as_str());
        },
        None => {
            proof {
                assert(outs_view(out@) =~= outs_view(old(out)@) + condition_events(tag@, None));
            }
        },
    }
}

/// Adds the event definition tag `tag` with the attribute `key` for the
/// reference `r`, when there is one, to `out`.
fn push_ref_definition(out: &mut Vec<XmlOut>, tag: &str, key: &str, r: &Option<String>)
    ensures
        outs_view(final(out)@) == outs_view(old(out)@) + wrapped(tag@, opt_attribute(key@, *r), Seq::empty()),
{
    let mut a = no_attributes();
    push_opt_pair(&mut a, key, r);
    proof {
        assert(pairs_view(a@) =~= opt_attribute(key@, *r));
    }
    push_wrapped(out, tag, a, no_events());
}

/// Adds the events that write the event definition `d` to `out`.
fn push_event_definition(out: &mut Vec<XmlOut>, d: &Option<EventDefinition>)
    ensures
        outs_view(final(out)@) == outs_view(old(out)@) + event_definition_events(*d),
{
    let none: Option<String> = None;
    match d {
        Some(EventDefinition::Message { message_ref }) => {
            push_ref_definition(out, "bpmn2:messageEventDefinition", "messageRef", message_ref);
        },
        Some(EventDefinition::Timer { time_definition }) => {
            let mut c = no_events();
            match time_definition {
                Some(t) => {
                    push_text_element(&mut c, time_tag_of(t), no_attributes(), t.as_str());
                },
                None => {},
            }
            proof {
                assert(outs_view(c@) =~= match time_definition {
                    Some(t) => text_element(time_tag(t@), Seq::empty(), t@),
                    None => Seq::<XmlOutView>::empty(),
                });
            }
            push_wrapped(out, "bpmn2:timerEventDefinition", no_attributes(), c);
        },
        Some(EventDefinition::Signal { signal_ref }) => {
            push_ref_definition(out, "bpmn2:signalEventDefinition", "signalRef", signal_ref);
        },
        Some(EventDefinition::Error { error_ref }) => {
            push_ref_definition(out, "bpmn2:errorEventDefinition", "errorRef", error_ref);
        },
        Some(EventDefinition::Escalation { escalation_ref }) => {
            push_ref_definition(out, "bpmn2:escalationEventDefinition", "escalationRef", escalation_ref);
        },
        Some(EventDefinition::Cancel) => {
            push_ref_definition(out, "bpmn2:cancelEventDefinition", "id", &none);
        },
        Some(EventDefinition::Compensation { activity_ref }) => {
            push_ref_definition(out, "bpmn2:compensateEventDefinition", "activityRef", activity_ref);
        },
        Some(EventDefinition::Conditional { condition }) => {
            let mut c = no_events();
            push_condition(&mut c, "bpmn2:condition", condition);
            proof {
                assert(outs_view(c@) =~= condition_events("bpmn2:condition"@, *condition));
            }
            push_wrapped(out, "bpmn2:conditionalEventDefinition", no_attributes(), c);
        },
        Some(EventDefinition::Link { name }) => {
            push_ref_definition(out, "bpmn2:linkEventDefinition", "name", name);
        },
        Some(EventDefinition::Terminate) => {
            push_ref_definition(out, "bpmn2:terminateEventDefinition", "id", &none);
        },
        _ => {
            proof {
                assert(outs_view(out@) =~= outs_view(old(out)@) + event_definition_events(*d));
            }
        },
    }
}

/// Adds the events that write the loop characteristics `m` to `out`.
fn push_loop(out: &mut Vec<XmlOut>, m: &Option<MultiInstanceLoopCharacteristics>)
    ensures
        outs_view(final(out)@) == outs_view(old(out)@) + loop_events(*m),
{
    match m {
        Some(m) => {
            let mut a = no_attributes();
            push_pair(&mut a, "isParallel", if m.is_parallel { "true" } else { "false" });
            push_opt_pair(&mut a, "behavior", &m.behavior);
            let mut c = no_events();
            match m.loop_cardinality {
                Some(n) => {
                    let t = decimal_text(n as i64);
                    push_text_element(&mut c, "bpmn2:loopCardinality", no_attributes(), t.as_str());
                },
                None => {},
            }
            push_opt_text_element(&mut c, "bpmn2:completionCondition", &m.completion_condition);
            proof {
                assert(pairs_view(a@) =~= seq![("isParallel"@, bool_text(m.is_parallel))] + opt_attribute(
                    "behavior"@,
                    m.behavior,
                ));
                assert(outs_view(c@) =~= match m.loop_cardinality {
                    Some(n) => text_element("bpmn2:loopCardinality"@, Seq::empty(), int_text(n as int)),
                    None => Seq::<XmlOutView>::empty(),
                } + opt_text_element("bpmn2:completionCondition"@, m.completion_condition));
            }
            push_wrapped(out, "bpmn2:multiInstanceLoopCharacteristics", a, c);
        },
        None => {
            proof {
                assert(outs_view(out@) =~= outs_view(old(out)@) + loop_events(None));
            }
        },
    }
}

/// Adds the events that write the data associations `s` under the tag
/// `tag` to `out`.
fn push_associations(out: &mut Vec<XmlOut>, tag: &str, s: &Vec<DataAssociation>)
    ensures
        outs_view(final(out)@) == outs_view(old(out)@) + associations_events(tag@, s@),
{
    let ghost start = outs_view(out@);
    proof {
        assert(s@.take(0) =~= Seq::<DataAssociation>::empty());
        assert(outs_view(out@) =~= start + associations_events(tag@, s@.take(0)));
    }
    for i in 0..s.len()
        invariant
            start == outs_view(old(out)@),
            outs_view(out@) == start + associations_events(tag@, s@.take(i as int)),
    {
        let a = &s[i];
        let mut c = no_events();
        push_opt_text_element(&mut c, "bpmn2:sourceRef", &a.source_ref);
        push_opt_text_element(&mut c, "bpmn2:targetRef", &a.target_ref);
        push_opt_text_element(&mut c, "bpmn2:transformation", &a.transformation);
        proof {
            assert(outs_view(c@) =~= opt_text_element("bpmn2:sourceRef"@, a.source_ref) + opt_text_element(
                "bpmn2:targetRef"@,
                a.target_ref,
            ) + opt_text_element("bpmn2:transformation"@, a.transformation));
        }
        let ghost before = outs_view(out@);
        push_wrapped(out, tag, no_attributes(), c);
        proof {
            assert(s@.take(i + 1).drop_last() =~= s@.take(i as int));
            assert(s@.take(i + 1).last() == s@[i as int]);
            assert(outs_view(out@) =~= start + associations_events(tag@, s@.take(i + 1)));
        }
    }
    proof {
        assert(s@.take(s@.len() as int) =~= s@);
    }
}

/// The base of the element `e`.
fn base_of(e: &ProcessElement) -> (r: &ElementBase)
    ensures
        *r == e@.base(),
{
    match e {
        ProcessElement::StartEvent(s) => &s.base,
        ProcessElement::EndEvent(s) => &s.base,
        ProcessElement::IntermediateCatchEvent(s) => &s.base,
        ProcessElement::IntermediateThrowEvent(s) => &s.base,
        ProcessElement::ServiceTask(s) => &s.base,
        ProcessElement::UserTask(s) => &s.base,
        ProcessElement::ScriptTask(s) => &s.base,
        ProcessElement::ManualTask(s) => &s.base,
        ProcessElement::ExclusiveGateway(s) => &s.base,
        ProcessElement::ParallelGateway(s) => &s.base,
        ProcessElement::InclusiveGateway(s) => &s.base,
        ProcessElement::DataObject(s) => &s.base,
        ProcessElement::DataInput(s) => &s.base,
        ProcessElement::DataOutput(s) => &s.base,
        ProcessElement::DataObjectReference(s) => &s.base,
        ProcessElement::CallActivity(s) => &s.base,
    }
}

/// The tag of the element `e`.
fn element_tag_of(e: &ProcessElement) -> (r: &'static str)
    ensures
        r@ == element_tag(e@),
{
    match e {
        ProcessElement::StartEvent(_) => "bpmn2:startEvent",
        ProcessElement::EndEvent(_) => "bpmn2:endEvent",
        ProcessElement::IntermediateCatchEvent(_) => "bpmn2:intermediateCatchEvent",
        ProcessElement::IntermediateThrowEvent(_) => "bpmn2:intermediateThrowEvent",
        ProcessElement::ServiceTask(_) => "bpmn2:serviceTask",
        ProcessElement::UserTask(_) => "bpmn2:userTask",
        ProcessElement::ScriptTask(_) => "bpmn2:scriptTask",
        ProcessElement::ManualTask(_) => "bpmn2:manualTask",
        ProcessElement::ExclusiveGateway(_) => "bpmn2:exclusiveGateway",
        ProcessElement::ParallelGateway(_) => "bpmn2:parallelGateway",
        ProcessElement::InclusiveGateway(_) => "bpmn2:inclusiveGateway",
        ProcessElement::DataObject(_) => "bpmn2:dataObject",
        ProcessElement::DataInput(_) => "bpmn2:dataInput",
        ProcessElement::DataOutput(_) => "bpmn2:dataOutput",
        ProcessElement::DataObjectReference(_) => "bpmn2:dataObjectReference",
        ProcessElement::CallActivity(_) => "bpmn2:callActivity",
    }
}

/// Adds the `gatewayDirection` attribute of a gateway with direction `d`,
/// when it is known, to `attrs`.
fn push_direction(attrs: &mut Vec<(String, String)>, d: GatewayDirection)
    ensures
        pairs_view(final(attrs)@) == pairs_view(old(attrs)@) + direction_attribute(d),
{
    match d {
        GatewayDirection::Diverging => push_pair(attrs, "gatewayDirection", "Diverging"),
        GatewayDirection::Converging => push_pair(attrs, "gatewayDirection", "Converging"),
        GatewayDirection::Mixed => push_pair(attrs, "gatewayDirection", "Mixed"),
        GatewayDirection::Unknown => {},
    }
    proof {
        assert(pairs_view(attrs@) =~= pairs_view(old(attrs)@) + direction_attribute(d));
    }
}

/// The attributes of the element `e`.
fn element_attributes_of(e: &ProcessElement) -> (r: Vec<(String, String)>)
    ensures
        pairs_view(r@) == element_attributes(e@),
{
    let b = base_of(e);
    let mut r = named(&b.id, &b.name);
    let ghost n = pairs_view(r@);
    match e {
        ProcessElement::ServiceTask(s) => {
            push_opt_pair(&mut r, "implementation", &s.implementation);
            push_opt_pair(&mut r, "operationRef", &s.operation_ref);
        },
        ProcessElement::UserTask(s) => push_opt_pair(&mut r, "formKey", &s.form_key),
        ProcessElement::ScriptTask(s) => push_opt_pair(&mut r, "scriptFormat", &s.script_format),
        ProcessElement::ExclusiveGateway(s) => push_opt_pair(&mut r, "default", &s.default_flow),
        ProcessElement::ParallelGateway(s) => {
            push_opt_pair(&mut r, "default", &s.default_flow);
            push_direction(&mut r, s.gateway_direction);
        },
        ProcessElement::InclusiveGateway(s) => push_opt_pair(&mut r, "default", &s.default_flow),
        ProcessElement::DataObject(s) => push_opt_pair(&mut r, "dataState", &s.data_state),
        ProcessElement::DataObjectReference(s) => push_opt_pair(&mut r, "dataObjectRef", &s.data_object_ref),
        ProcessElement::CallActivity(s) => {
            push_opt_pair(&mut r, "calledElement", &s.called_element);
            push_opt_pair(&mut r, "businessKey", &s.business_key);
        },
        _ => {},
    }
    proof {
        assert(pairs_view(r@) =~= element_attributes(e@));
    }
    r
}

/// The children of the element `e`.
fn element_children_of(e: &ProcessElement) -> (r: Vec<XmlOut>)
    ensures
        outs_view(r@) == element_children(e@),
{
    let mut r = no_events();
    push_opt_text_element(&mut r, "bpmn2:documentation", &base_of(e).documentation);
    match e {
        ProcessElement::StartEvent(s) => push_event_definition(&mut r, &s.event_definition),
        ProcessElement::EndEvent(s) => push_event_definition(&mut r, &s.event_definition),
        ProcessElement::IntermediateCatchEvent(s) => push_event_definition(&mut r, &s.event_definition),
        ProcessElement::IntermediateThrowEvent(s) => push_event_definition(&mut r, &s.event_definition),
        ProcessElement::ServiceTask(s) => push_loop(&mut r, &s.loop_characteristics),
        ProcessElement::UserTask(s) => push_loop(&mut r, &s.loop_characteristics),
        ProcessElement::ScriptTask(s) => {
            push_loop(&mut r, &s.loop_characteristics);
            push_opt_text_element(&mut r, "bpmn2:script", &s.script);
        },
        ProcessElement::CallActivity(s) => {
            push_associations(&mut r, "bpmn2:dataInputAssociation", &s.data_input_associations);
            push_associations(&mut r, "bpmn2:dataOutputAssociation", &s.data_output_associations);
        },
        _ => {},
    }
    proof {
        assert(outs_view(r@) =~= element_children(e@));
    }
    r
}

/// Adds the events that write the flow `f` to `out`.
fn push_flow(out: &mut Vec<XmlOut>, f: &SequenceFlow)
    ensures
        outs_view(final(out)@) == outs_view(old(out)@) + flow_events(*f),
{
    let mut a = no_attributes();
    push_pair(&mut a, "id", f.id.as_str());
    push_opt_pair(&mut a, "name", &f.name);
    push_pair(&mut a, "sourceRef", f.source_ref.as_str());
    push_pair(&mut a, "targetRef", f.target_ref.as_str());
    let mut c = no_events();
    push_condition(&mut c, "bpmn2:conditionExpression", &f.condition_expression);
    proof {
        assert(pairs_view(a@) =~= seq![("id"@, f.id@)] + opt_attribute("name"@, f.name) + seq![
            ("sourceRef"@, f.source_ref@),
            ("targetRef"@, f.target_ref@),
        ]);
        assert(outs_view(c@) =~= condition_events("bpmn2:conditionExpression"@, f.condition_expression));
    }
    push_wrapped(out, "bpmn2:sequenceFlow", a, c);
}

/// The XML events that write `definition`.
pub fn xml_events_of(definition: &ProcessDefinition) -> (r: Vec<XmlOut>)
    ensures
        outs_view(r@) == definition_events(definition@),
{
    let mut out = no_events();
    push_out(&mut out, XmlOut::Declaration { version: "1.0".to_owned(), encoding: Some("UTF-8".to_owned()) });
    let mut defs = no_attributes();
    push_pair(&mut defs, "xmlns:bpmn2", BPMN2_NAMESPACE);
    push_pair(&mut defs, "xmlns:bpmndi", BPMNDI_NAMESPACE);
    push_pair(&mut defs, "xmlns:dc", DC_NAMESPACE);
    push_pair(&mut defs, "xmlns:di", DI_NAMESPACE);
    push_pair(&mut defs, "id", "Definitions");
    push_pair(&mut defs, "targetNamespace", "http://bpmn.io/schema/bpmn");
    proof {
        assert(pairs_view(defs@) =~= definitions_attributes());
    }
    push_out(&mut out, XmlOut::Tag { name: "bpmn2:definitions".to_owned(), attributes: defs, empty: false });
    let mut process = named(&definition.id, &definition.name);
    push_pair(&mut process, "isExecutable", if definition.is_executable { "true" } else { "false" });
    proof {
        assert(pairs_view(process@) =~= process_attributes(definition@));
    }
    push_out(&mut out, XmlOut::Tag { name: "bpmn2:process".to_owned(), attributes: process, empty: false });
    let ghost head = outs_view(out@);
    proof {
        assert(head =~= seq![
            XmlOutView::Declaration { version: "1.0"@, encoding: Some("UTF-8"@) },
            XmlOutView::Tag { name: "bpmn2:definitions"@, attributes: definitions_attributes(), empty: false },
            XmlOutView::Tag { name: "bpmn2:process"@, attributes: process_attributes(definition@), empty: false },
        ]);
    }
    let ghost es = definition@.elements;
    proof {
        assert(es.take(0) =~= Seq::<ProcessElementView>::empty());
        assert(outs_view(out@) =~= head + elements_events(es.take(0)));
    }
    for i in 0..definition.elements.len()
        invariant
            es == definition@.elements,
            es == definition.elements@.map_values(|e: ProcessElement| e@),
            outs_view(out@) == head + elements_events(es.take(i as int)),
    {
        let e = &definition.elements[i];
        let attrs = element_attributes_of(e);
        let children = element_children_of(e);
        push_wrapped(&mut out, element_tag_of(e), attrs, children);
        proof {
            assert(es.take(i + 1).drop_last() =~= es.take(i as int));
            assert(es.take(i + 1).last() == e@);
            assert(outs_view(out@) =~= head + elements_events(es.take(i + 1)));
        }
    }
    proof {
        assert(es.take(es.len() as int) =~= es);
    }
    let ghost mid = outs_view(out@);
    let ghost fs = definition.flows@;
    proof {
        assert(fs.take(0) =~= Seq::<SequenceFlow>::empty());
        assert(outs_view(out@) =~= mid + flows_events(fs.take(0)));
    }
    for i in 0..definition.flows.len()
        invariant
            fs == definition.flows@,
            outs_view(out@) == mid + flows_events(fs.take(i as int)),
    {
        push_flow(&mut out, &definition.flows[i]);
        proof {
            assert(fs.take(i + 1).drop_last() =~= fs.take(i as int));
            assert(fs.take(i + 1).last() == fs[i as int]);
            assert(outs_view(out@) =~= mid + flows_events(fs.take(i + 1)));
        }
    }
    proof {
        assert(fs.take(fs.len() as int) =~= fs);
    }
    push_out(&mut out, XmlOut::End { name: "bpmn2:process".to_owned() });
    push_out(&mut out, XmlOut::End { name: "bpmn2:definitions".to_owned() });
    proof {
        assert(outs_view(out@) =~= definition_events(definition@));
    }
    out
}

/// Serializes `definition` as BPMN 2.0 XML.
pub fn serialize_bpmn_xml(definition: &ProcessDefinition) -> (r: Result<String, SerializeError>)
    ensures
        r matches Ok(s) && s@ == serialized(definition@),
{
    let events = xml_events_of(definition);
    match write_xml_events(&events) {
        Ok(bytes) => match string_from_utf8(bytes) {
            Ok(s) => Ok(s),
            Err(e) => Err(SerializeError::Xml("UTF-8 error: ".to_owned().concat(e.as_str()))),
        },
        Err(e) => Err(SerializeError::Xml(e)),
    }
}

} // verus!
