//! Reading back what the XML writer writes: the events that serialize a
//! definition, as a reader gives them back, read as the definition itself.

use vstd::prelude::*;
use crate::model::xml::{
    assoc_view, assocs_view, attribute, condition_view, element_nested, element_text, empty_assoc, is_bpmn_tag,
    definition_is, element_is, flow_view, flush, lemma_assocs_are_view, xml_result, is_event_kind, is_loop_kind, nested_kind, new_element, opt_text, read_event, read_events, set_last_ref, spells, tag_kind,
    with_event, xml_element_key, xml_flow_key, xml_start, AssocField, TextSlot, XmlAssoc, XmlCondition, XmlElement, XmlEventDef, XmlFlow, XmlItem, XmlKind, XmlMulti, XmlNested,
    XmlRead,
};
use crate::model::xml_read::{lossy_utf8, text_decoded, XmlEventView};
use crate::model::xml_write::{
    association_events, associations_events, bool_text, condition_events, event_definition_events, loop_events,
    definition_events, definitions_attributes, direction_attribute, documentation_events, elements_events, flow_events, flows_events, element_attributes, element_children, element_events, element_tag,
    named_attributes, process_attributes, opt_attribute, opt_text_element, text_element, time_tag,
    wrapped, XmlOutView,
};
use crate::engine::context::GatewayDirection;
use crate::model::elements::{
    distinct_keys, element_key, flow_key, DataAssociation, EventDefinition, MultiInstanceLoopCharacteristics,
    IoMappingView, ProcessDefinitionView, ProcessElementView, SequenceFlow,
};
use crate::lists::{lemma_first_match_none, same_key, upsert};
use crate::text::{all_digits, digit_char, digits_value, i32_text, int_text, is_digit, nat_text};

verus! {

/// Whether the attributes `ab`, as a reader gives them, are the written
/// attributes `attrs`: each with a key whose bytes spell the key written
/// and a value that decodes to the value written. Attribute values are read
/// as they stand: a value holding a character the writer escapes (`<`, `>`,
/// `&`, `'` or `"`) comes back escaped, and for it this does not hold.
pub open spec fn attributes_read_as(ab: Seq<Option<(Seq<u8>, Seq<u8>)>>, attrs: Seq<(Seq<char>, Seq<char>)>) -> bool {
    ab.len() == attrs.len() && forall|i: int|
        #![trigger ab[i]]
        0 <= i < ab.len() ==> (ab[i] matches Some(p) && spells(p.0, attrs[i].0) && lossy_utf8(p.1)
            == attrs[i].1)
}

/// How many events a reader that expands empty-element tags gives for the
/// written event `out`.
pub open spec fn event_width(out: XmlOutView) -> int {
    match out {
        XmlOutView::Tag { empty, .. } => if empty {
            2
        } else {
            1
        },
        _ => 1,
    }
}

/// Whether `es` are the events a reader gives for the written event `out`:
/// a tag whose name's bytes spell the name written, with its attributes (followed by an end tag
/// when it was written empty), a text that decodes to the text written, an
/// end tag, or, for the declaration, another event.
pub open spec fn event_read_as(es: Seq<XmlEventView>, out: XmlOutView) -> bool {
    es.len() == event_width(out) && match out {
        XmlOutView::Declaration { .. } => es[0] == XmlEventView::Other,
        XmlOutView::Tag { name, attributes, empty } => (es[0] matches XmlEventView::Tag(n, a) && spells(n, name)
            && attributes_read_as(a, attributes)) && (empty ==> es[1] == XmlEventView::End),
        XmlOutView::Text { text } => es[0] matches XmlEventView::Text(b) && text_decoded(b) == text,
        XmlOutView::End { .. } => es[0] == XmlEventView::End,
    }
}

/// Whether `evs` are the events a reader gives for the written events
/// `outs`, in order.
pub open spec fn read_back_as(evs: Seq<XmlEventView>, outs: Seq<XmlOutView>) -> bool
    decreases outs.len(),
{
    if outs.len() == 0 {
        evs.len() == 0
    } else {
        let k = event_width(outs.last());
        evs.len() >= k && event_read_as(evs.subrange(evs.len() - k, evs.len() as int), outs.last())
            && read_back_as(evs.subrange(0, evs.len() - k), outs.drop_last())
    }
}

/// The events read back for `a + b` are those for `a` followed by those
/// for `b`; the result is where the second part starts.
pub proof fn lemma_read_back_split(evs: Seq<XmlEventView>, a: Seq<XmlOutView>, b: Seq<XmlOutView>) -> (k: int)
    requires
        read_back_as(evs, a + b),
    ensures
        0 <= k <= evs.len(),
        read_back_as(evs.take(k), a),
        read_back_as(evs.skip(k), b),
    decreases b.len(),
{
    if b.len() == 0 {
        assert(a + b =~= a);
        assert(evs.take(evs.len() as int) =~= evs);
        assert(evs.skip(evs.len() as int).len() == 0);
        evs.len() as int
    } else {
        let w = event_width(b.last());
        assert((a + b).drop_last() =~= a + b.drop_last());
        assert((a + b).last() == b.last());
        let e2 = evs.subrange(0, evs.len() - w);
        let k = lemma_read_back_split(e2, a, b.drop_last());
        assert(evs.take(k) =~= e2.take(k));
        let s = evs.skip(k);
        assert(s.subrange(s.len() - w, s.len() as int) =~= evs.subrange(evs.len() - w, evs.len() as int));
        assert(s.subrange(0, s.len() - w) =~= e2.skip(k));
        k
    }
}

/// The events read back for one written event.
pub proof fn lemma_read_back_one(evs: Seq<XmlEventView>, out: XmlOutView)
    ensures
        read_back_as(evs, seq![out]) == event_read_as(evs, out),
{
    let outs = seq![out];
    assert(outs.drop_last() =~= Seq::<XmlOutView>::empty());
    assert(outs.last() == out);
    let w = event_width(out);
    if evs.len() >= w {
        assert(evs.subrange(0, evs.len() - w).len() == evs.len() - w);
        assert(read_back_as(evs.subrange(0, evs.len() - w), outs.drop_last()) == (evs.len() - w == 0));
        if evs.len() == w {
            assert(evs.subrange(0, w) =~= evs);
        }
    }
}

/// What reading the events `evs` in order does to `st`.
pub open spec fn read_from(st: XmlRead, evs: Seq<XmlEventView>) -> XmlRead
    decreases evs.len(),
{
    if evs.len() == 0 {
        st
    } else {
        read_event(read_from(st, evs.drop_last()), evs.last())
    }
}

/// Reading events from the start state.
pub proof fn lemma_read_events_from(evs: Seq<XmlEventView>)
    ensures
        read_events(evs) == read_from(xml_start(), evs),
    decreases evs.len(),
{
    if evs.len() > 0 {
        lemma_read_events_from(evs.drop_last());
    }
}

/// Reading `a + b` reads `a`, then `b`.
pub proof fn lemma_read_from_concat(st: XmlRead, a: Seq<XmlEventView>, b: Seq<XmlEventView>)
    ensures
        read_from(st, a + b) == read_from(read_from(st, a), b),
    decreases b.len(),
{
    if b.len() == 0 {
        assert(a + b =~= a);
    } else {
        assert((a + b).drop_last() =~= a + b.drop_last());
        assert((a + b).last() == b.last());
        lemma_read_from_concat(st, a, b.drop_last());
    }
}

/// Reading one event.
pub proof fn lemma_read_from_one(st: XmlRead, e: XmlEventView)
    ensures
        read_from(st, seq![e]) == read_event(st, e),
{
    assert(seq![e].drop_last() =~= Seq::<XmlEventView>::empty());
    assert(read_from(st, Seq::<XmlEventView>::empty()) == st);
    assert(seq![e].last() == e);
}

/// Characters with the same code are the same.
proof fn lemma_char_u32(a: char, b: char)
    requires
        a as u32 == b as u32,
    ensures
        a == b,
{
}

/// Bytes spell one text at most.
pub proof fn lemma_spells_same(w: Seq<u8>, a: Seq<char>, b: Seq<char>)
    requires
        spells(w, a),
        spells(w, b),
    ensures
        a == b,
{
    assert forall|i: int| 0 <= i < a.len() implies a[i] == b[i] by {
        assert(w[i] as u32 == a[i] as u32);
        assert(w[i] as u32 == b[i] as u32);
        lemma_char_u32(a[i], b[i]);
    }
    assert(a =~= b);
}

/// Whether the bytes that spell `full` are the BPMN tag `local`.
pub proof fn lemma_is_tag_of(w: Seq<u8>, full: Seq<char>)
    requires
        spells(w, full),
    ensures
        forall|local: Seq<char>|
            #[trigger] is_bpmn_tag(w, local) == (full == "bpmn2:"@ + local || full == "bpmn:"@ + local || full
                == local),
{
    assert forall|local: Seq<char>|
        #[trigger] is_bpmn_tag(w, local) == (full == "bpmn2:"@ + local || full == "bpmn:"@ + local || full
            == local) by {
        if spells(w, "bpmn2:"@ + local) {
            lemma_spells_same(w, full, "bpmn2:"@ + local);
        }
        if spells(w, "bpmn:"@ + local) {
            lemma_spells_same(w, full, "bpmn:"@ + local);
        }
        if spells(w, local) {
            lemma_spells_same(w, full, local);
        }
    }
}

/// The value of the attribute `key` among the written attributes `attrs`:
/// the last one with that key.
pub open spec fn written_attribute(attrs: Seq<(Seq<char>, Seq<char>)>, key: Seq<char>) -> Option<Seq<char>>
    decreases attrs.len(),
{
    if attrs.len() == 0 {
        None
    } else if attrs.last().0 == key {
        Some(attrs.last().1)
    } else {
        written_attribute(attrs.drop_last(), key)
    }
}

/// An attribute read back has the value written.
pub proof fn lemma_attribute_read(ab: Seq<Option<(Seq<u8>, Seq<u8>)>>, attrs: Seq<(Seq<char>, Seq<char>)>, key: Seq<char>)
    requires
        attributes_read_as(ab, attrs),
    ensures
        attribute(ab, key) == written_attribute(attrs, key),
    decreases attrs.len(),
{
    if attrs.len() > 0 {
        let n = (ab.len() - 1) as int;
        assert(ab[n] matches Some(p) && spells(p.0, attrs[n].0) && lossy_utf8(p.1) == attrs[n].1);
        let p = ab[n]->Some_0;
        if spells(p.0, key) {
            lemma_spells_same(p.0, attrs[n].0, key);
        }
        assert(attributes_read_as(ab.drop_last(), attrs.drop_last())) by {
            assert forall|i: int| #![trigger ab.drop_last()[i]] 0 <= i < ab.drop_last().len() implies (
            ab.drop_last()[i] matches Some(p) && spells(p.0, attrs.drop_last()[i].0) && lossy_utf8(p.1)
                == attrs.drop_last()[i].1) by {
                assert(ab.drop_last()[i] == ab[i]);
                assert(attrs.drop_last()[i] == attrs[i]);
            }
        }
        lemma_attribute_read(ab.drop_last(), attrs.drop_last(), key);
    }
}

/// The parts of the events read back for a tag written around children:
/// the tag's attributes as read, and the events between the tag and its
/// end.
pub proof fn lemma_wrapped_parts(
    evs: Seq<XmlEventView>,
    n: Seq<char>,
    a: Seq<(Seq<char>, Seq<char>)>,
    c: Seq<XmlOutView>,
) -> (r: (Seq<u8>, Seq<Option<(Seq<u8>, Seq<u8>)>>, Seq<XmlEventView>))
    requires
        read_back_as(evs, wrapped(n, a, c)),
    ensures
        spells(r.0, n),
        attributes_read_as(r.1, a),
        read_back_as(r.2, c),
        evs == seq![XmlEventView::Tag(r.0, r.1)] + r.2 + seq![XmlEventView::End],
{
    let tag = XmlOutView::Tag { name: n, attributes: a, empty: false };
    if c.len() == 0 {
        lemma_read_back_one(evs, XmlOutView::Tag { name: n, attributes: a, empty: true });
        let nb = evs[0]->Tag_0;
        let ab = evs[0]->Tag_1;
        assert(evs =~= seq![XmlEventView::Tag(nb, ab)] + Seq::<XmlEventView>::empty() + seq![XmlEventView::End]);
        (nb, ab, Seq::empty())
    } else {
        let all = seq![tag] + c + seq![XmlOutView::End { name: n }];
        assert(wrapped(n, a, c) == all);
        let k1 = lemma_read_back_split(evs, seq![tag] + c, seq![XmlOutView::End { name: n }]);
        lemma_read_back_one(evs.skip(k1), XmlOutView::End { name: n });
        let head = evs.take(k1);
        let k2 = lemma_read_back_split(head, seq![tag], c);
        lemma_read_back_one(head.take(k2), tag);
        let nb = head[0]->Tag_0;
        let ab = head[0]->Tag_1;
        let ec = head.skip(k2);
        assert(evs =~= seq![XmlEventView::Tag(nb, ab)] + ec + seq![XmlEventView::End]);
        (nb, ab, ec)
    }
}

/// Reading a first event, a middle part and a last event.
pub proof fn lemma_read_three(st: XmlRead, x: XmlEventView, m: Seq<XmlEventView>, y: XmlEventView)
    ensures
        read_from(st, seq![x] + m + seq![y]) == read_event(read_from(read_event(st, x), m), y),
{
    lemma_read_from_concat(st, seq![x] + m, seq![y]);
    lemma_read_from_concat(st, seq![x], m);
    lemma_read_from_one(st, x);
    lemma_read_from_one(read_from(st, seq![x] + m), y);
}

/// Whether the bytes `w` are read as the nested tag `k`: no process,
/// element or flow tag.
pub open spec fn nested_bytes(w: Seq<u8>, k: XmlNested) -> bool {
    &&& !is_bpmn_tag(w, "process"@)
    &&& tag_kind(w) is None
    &&& !is_bpmn_tag(w, "sequenceFlow"@)
    &&& nested_kind(w) == Some(k)
}

/// Whether a tag named `n` is read as the nested tag `k`, whatever bytes
/// spell its name.
pub open spec fn nested_tag(n: Seq<char>, k: XmlNested) -> bool {
    forall|w: Seq<u8>| #[trigger] spells(w, n) ==> nested_bytes(w, k)
}

/// `st` with the open element `x`, no text to fill, and `into` as the kind
/// of the current association.
pub open spec fn with_open(st: XmlRead, x: XmlElement, into: bool) -> XmlRead {
    XmlRead { open: Some(XmlItem::Element(x)), slot: None, into_inputs: into, ..st }
}

/// Reading a nested tag written around children, inside an open element:
/// the tag does what `element_nested` says, the children follow, and the
/// end tag closes it.
pub proof fn lemma_read_nested(
    st: XmlRead,
    x: XmlElement,
    evs: Seq<XmlEventView>,
    n: Seq<char>,
    k: XmlNested,
    a: Seq<(Seq<char>, Seq<char>)>,
    c: Seq<XmlOutView>,
) -> (r: (Seq<u8>, Seq<Option<(Seq<u8>, Seq<u8>)>>, Seq<XmlEventView>))
    requires
        nested_tag(n, k),
        st.open == Some(XmlItem::Element(x)),
        st.depth > 0,
        read_back_as(evs, wrapped(n, a, c)),
    ensures
        attributes_read_as(r.1, a),
        read_back_as(r.2, c),
        ({
            let e = element_nested(x, Some(k), r.1, st.into_inputs);
            let inner = read_from(
                XmlRead {
                    open: Some(XmlItem::Element(e.0)),
                    slot: e.1,
                    into_inputs: e.2,
                    depth: st.depth + 1,
                    ..st
                },
                r.2,
            );
            read_from(st, evs) == read_event(inner, XmlEventView::End)
        }),
{
    let r = lemma_wrapped_parts(evs, n, a, c);
    assert(nested_bytes(r.0, k));
    lemma_read_three(st, XmlEventView::Tag(r.0, r.1), r.2, XmlEventView::End);
    r
}

/// Reading a text element nested in an open element at depth `st.depth`:
/// the text fills what the tag says, and the state is left with no text
/// to fill.
pub proof fn lemma_read_text_child(
    st: XmlRead,
    x: XmlElement,
    evs: Seq<XmlEventView>,
    n: Seq<char>,
    k: XmlNested,
    a: Seq<(Seq<char>, Seq<char>)>,
    t: Seq<char>,
) -> (ab: Seq<Option<(Seq<u8>, Seq<u8>)>>)
    requires
        nested_tag(n, k),
        st.open == Some(XmlItem::Element(x)),
        st.depth > 0,
        read_back_as(evs, text_element(n, a, t)),
    ensures
        attributes_read_as(ab, a),
        ({
            let e = element_nested(x, Some(k), ab, st.into_inputs);
            read_from(st, evs) == with_open(st, element_text(e.0, e.1, e.2, t), e.2)
        }),
{
    let c = seq![XmlOutView::Text { text: t }];
    assert(text_element(n, a, t) == wrapped(n, a, c));
    let r = lemma_read_nested(st, x, evs, n, k, a, c);
    lemma_read_back_one(r.2, XmlOutView::Text { text: t });
    let e = element_nested(x, Some(k), r.1, st.into_inputs);
    let s1 = XmlRead { open: Some(XmlItem::Element(e.0)), slot: e.1, into_inputs: e.2, depth: st.depth + 1, ..st };
    lemma_read_from_one(s1, r.2[0]);
    assert(r.2 =~= seq![r.2[0]]);
    r.1
}

/// Reading a nested tag without children, inside an open element.
pub proof fn lemma_read_empty_child(
    st: XmlRead,
    x: XmlElement,
    evs: Seq<XmlEventView>,
    n: Seq<char>,
    k: XmlNested,
    a: Seq<(Seq<char>, Seq<char>)>,
) -> (ab: Seq<Option<(Seq<u8>, Seq<u8>)>>)
    requires
        nested_tag(n, k),
        st.open == Some(XmlItem::Element(x)),
        st.depth > 0,
        read_back_as(evs, wrapped(n, a, Seq::empty())),
    ensures
        attributes_read_as(ab, a),
        ({
            let e = element_nested(x, Some(k), ab, st.into_inputs);
            read_from(st, evs) == with_open(st, e.0, e.2)
        }),
{
    let r = lemma_read_nested(st, x, evs, n, k, a, Seq::empty());
    assert(r.2.len() == 0);
    assert(r.2 =~= Seq::<XmlEventView>::empty());
    r.1
}

/// Whether the bytes `w` are read as the tag of an element of kind `kind`.
pub open spec fn element_bytes(w: Seq<u8>, kind: XmlKind) -> bool {
    !is_bpmn_tag(w, "process"@) && tag_kind(w) == Some(kind)
}

/// Whether a tag named `n` is read as an element of kind `kind`, whatever
/// bytes spell its name.
pub open spec fn element_tag_read(n: Seq<char>, kind: XmlKind) -> bool {
    forall|w: Seq<u8>| #[trigger] spells(w, n) ==> element_bytes(w, kind)
}

/// Whether the bytes `w` are read as a sequence flow tag.
pub open spec fn flow_bytes(w: Seq<u8>) -> bool {
    !is_bpmn_tag(w, "process"@) && tag_kind(w) is None && is_bpmn_tag(w, "sequenceFlow"@)
}

/// Whether the bytes `w` are read as no process, element or flow tag.
pub open spec fn other_bytes(w: Seq<u8>) -> bool {
    !is_bpmn_tag(w, "process"@) && tag_kind(w) is None && !is_bpmn_tag(w, "sequenceFlow"@)
}

/// The tags of elements are read as elements of their kinds.
#[verifier::rlimit(50)]
pub proof fn lemma_element_tags()
    ensures
        element_tag_read("bpmn2:startEvent"@, XmlKind::StartEvent),
        element_tag_read("bpmn2:endEvent"@, XmlKind::EndEvent),
        element_tag_read("bpmn2:intermediateCatchEvent"@, XmlKind::IntermediateCatchEvent),
        element_tag_read("bpmn2:intermediateThrowEvent"@, XmlKind::IntermediateThrowEvent),
        element_tag_read("bpmn2:serviceTask"@, XmlKind::ServiceTask),
        element_tag_read("bpmn2:userTask"@, XmlKind::UserTask),
        element_tag_read("bpmn2:scriptTask"@, XmlKind::ScriptTask),
        element_tag_read("bpmn2:manualTask"@, XmlKind::ManualTask),
{
    reveal_strlit("bpmn2:");
    reveal_strlit("bpmn2:endEvent");
    reveal_strlit("bpmn2:intermediateCatchEvent");
    reveal_strlit("bpmn2:intermediateThrowEvent");
    reveal_strlit("bpmn2:manualTask");
    reveal_strlit("bpmn2:scriptTask");
    reveal_strlit("bpmn2:serviceTask");
    reveal_strlit("bpmn2:startEvent");
    reveal_strlit("bpmn2:userTask");
    reveal_strlit("bpmn:");
    reveal_strlit("callActivity");
    reveal_strlit("cancelEventDefinition");
    reveal_strlit("compensateEventDefinition");
    reveal_strlit("completionCondition");
    reveal_strlit("condition");
    reveal_strlit("conditionExpression");
    reveal_strlit("conditionalEventDefinition");
    reveal_strlit("dataInput");
    reveal_strlit("dataInputAssociation");
    reveal_strlit("dataObject");
    reveal_strlit("dataObjectReference");
    reveal_strlit("dataOutput");
    reveal_strlit("dataOutputAssociation");
    reveal_strlit("documentation");
    reveal_strlit("endEvent");
    reveal_strlit("errorEventDefinition");
    reveal_strlit("escalationEventDefinition");
    reveal_strlit("exclusiveGateway");
    reveal_strlit("inclusiveGateway");
    reveal_strlit("intermediateCatchEvent");
    reveal_strlit("intermediateThrowEvent");
    reveal_strlit("linkEventDefinition");
    reveal_strlit("loopCardinality");
    reveal_strlit("manualTask");
    reveal_strlit("messageEventDefinition");
    reveal_strlit("multiInstanceLoopCharacteristics");
    reveal_strlit("parallelGateway");
    reveal_strlit("process");
    reveal_strlit("script");
    reveal_strlit("scriptTask");
    reveal_strlit("sequenceFlow");
    reveal_strlit("serviceTask");
    reveal_strlit("signalEventDefinition");
    reveal_strlit("sourceRef");
    reveal_strlit("startEvent");
    reveal_strlit("targetRef");
    reveal_strlit("terminateEventDefinition");
    reveal_strlit("timeCycle");
    reveal_strlit("timeDate");
    reveal_strlit("timeDuration");
    reveal_strlit("timerEventDefinition");
    reveal_strlit("transformation");
    reveal_strlit("userTask");
    assert forall|w: Seq<u8>| #[trigger] spells(w, "bpmn2:startEvent"@) implies element_bytes(w, XmlKind::StartEvent) by {
        lemma_is_tag_of(w, "bpmn2:startEvent"@);
        assert(("bpmn2:"@ + "startEvent"@) =~= "bpmn2:startEvent"@);
        assert(("bpmn:"@ + "serviceTask"@)[4] != "bpmn2:startEvent"@[4]);
        assert(("bpmn2:"@ + "scriptTask"@)[7] != "bpmn2:startEvent"@[7]);
        assert(("bpmn2:"@ + "manualTask"@)[6] != "bpmn2:startEvent"@[6]);
        assert("exclusiveGateway"@[0] != "bpmn2:startEvent"@[0]);
        assert("inclusiveGateway"@[0] != "bpmn2:startEvent"@[0]);
        assert(("bpmn2:"@ + "dataObject"@)[6] != "bpmn2:startEvent"@[6]);
        assert(("bpmn2:"@ + "dataOutput"@)[6] != "bpmn2:startEvent"@[6]);
    }
    assert forall|w: Seq<u8>| #[trigger] spells(w, "bpmn2:endEvent"@) implies element_bytes(w, XmlKind::EndEvent) by {
        lemma_is_tag_of(w, "bpmn2:endEvent"@);
        assert(("bpmn2:"@ + "endEvent"@) =~= "bpmn2:endEvent"@);
        assert(("bpmn2:"@ + "userTask"@)[6] != "bpmn2:endEvent"@[6]);
        assert(("bpmn:"@ + "dataInput"@)[4] != "bpmn2:endEvent"@[4]);
        assert(("bpmn:"@ + "condition"@)[4] != "bpmn2:endEvent"@[4]);
        assert(("bpmn2:"@ + "timeDate"@)[6] != "bpmn2:endEvent"@[6]);
        assert(("bpmn:"@ + "timeCycle"@)[4] != "bpmn2:endEvent"@[4]);
        assert(("bpmn:"@ + "sourceRef"@)[4] != "bpmn2:endEvent"@[4]);
        assert(("bpmn:"@ + "targetRef"@)[4] != "bpmn2:endEvent"@[4]);
        assert("transformation"@[0] != "bpmn2:endEvent"@[0]);
    }
    assert forall|w: Seq<u8>| #[trigger] spells(w, "bpmn2:intermediateCatchEvent"@) implies element_bytes(w, XmlKind::IntermediateCatchEvent) by {
        lemma_is_tag_of(w, "bpmn2:intermediateCatchEvent"@);
        assert(("bpmn2:"@ + "intermediateCatchEvent"@) =~= "bpmn2:intermediateCatchEvent"@);
        assert(("bpmn2:"@ + "intermediateThrowEvent"@)[18] != "bpmn2:intermediateCatchEvent"@[18]);
        assert(("bpmn2:"@ + "messageEventDefinition"@)[6] != "bpmn2:intermediateCatchEvent"@[6]);
    }
    assert forall|w: Seq<u8>| #[trigger] spells(w, "bpmn2:intermediateThrowEvent"@) implies element_bytes(w, XmlKind::IntermediateThrowEvent) by {
        lemma_is_tag_of(w, "bpmn2:intermediateThrowEvent"@);
        assert(("bpmn2:"@ + "intermediateCatchEvent"@)[18] != "bpmn2:intermediateThrowEvent"@[18]);
        assert(("bpmn2:"@ + "intermediateThrowEvent"@) =~= "bpmn2:intermediateThrowEvent"@);
        assert(("bpmn2:"@ + "messageEventDefinition"@)[6] != "bpmn2:intermediateThrowEvent"@[6]);
    }
    assert forall|w: Seq<u8>| #[trigger] spells(w, "bpmn2:serviceTask"@) implies element_bytes(w, XmlKind::ServiceTask) by {
        lemma_is_tag_of(w, "bpmn2:serviceTask"@);
        assert(("bpmn:"@ + "sequenceFlow"@)[4] != "bpmn2:serviceTask"@[4]);
        assert(("bpmn2:"@ + "serviceTask"@) =~= "bpmn2:serviceTask"@);
        assert(("bpmn:"@ + "callActivity"@)[4] != "bpmn2:serviceTask"@[4]);
        assert(("bpmn:"@ + "timeDuration"@)[4] != "bpmn2:serviceTask"@[4]);
    }
    assert forall|w: Seq<u8>| #[trigger] spells(w, "bpmn2:userTask"@) implies element_bytes(w, XmlKind::UserTask) by {
        lemma_is_tag_of(w, "bpmn2:userTask"@);
        assert(("bpmn2:"@ + "endEvent"@)[6] != "bpmn2:userTask"@[6]);
        assert(("bpmn2:"@ + "userTask"@) =~= "bpmn2:userTask"@);
        assert(("bpmn:"@ + "dataInput"@)[4] != "bpmn2:userTask"@[4]);
        assert(("bpmn:"@ + "condition"@)[4] != "bpmn2:userTask"@[4]);
        assert(("bpmn2:"@ + "timeDate"@)[6] != "bpmn2:userTask"@[6]);
        assert(("bpmn:"@ + "timeCycle"@)[4] != "bpmn2:userTask"@[4]);
        assert(("bpmn:"@ + "sourceRef"@)[4] != "bpmn2:userTask"@[4]);
        assert(("bpmn:"@ + "targetRef"@)[4] != "bpmn2:userTask"@[4]);
        assert("transformation"@[0] != "bpmn2:userTask"@[0]);
    }
    assert forall|w: Seq<u8>| #[trigger] spells(w, "bpmn2:scriptTask"@) implies element_bytes(w, XmlKind::ScriptTask) by {
        lemma_is_tag_of(w, "bpmn2:scriptTask"@);
        assert(("bpmn2:"@ + "startEvent"@)[7] != "bpmn2:scriptTask"@[7]);
        assert(("bpmn:"@ + "serviceTask"@)[4] != "bpmn2:scriptTask"@[4]);
        assert(("bpmn2:"@ + "scriptTask"@) =~= "bpmn2:scriptTask"@);
        assert(("bpmn2:"@ + "manualTask"@)[6] != "bpmn2:scriptTask"@[6]);
        assert("exclusiveGateway"@[0] != "bpmn2:scriptTask"@[0]);
        assert("inclusiveGateway"@[0] != "bpmn2:scriptTask"@[0]);
        assert(("bpmn2:"@ + "dataObject"@)[6] != "bpmn2:scriptTask"@[6]);
        assert(("bpmn2:"@ + "dataOutput"@)[6] != "bpmn2:scriptTask"@[6]);
    }
    assert forall|w: Seq<u8>| #[trigger] spells(w, "bpmn2:manualTask"@) implies element_bytes(w, XmlKind::ManualTask) by {
        lemma_is_tag_of(w, "bpmn2:manualTask"@);
        assert(("bpmn2:"@ + "startEvent"@)[6] != "bpmn2:manualTask"@[6]);
        assert(("bpmn:"@ + "serviceTask"@)[4] != "bpmn2:manualTask"@[4]);
        assert(("bpmn2:"@ + "scriptTask"@)[6] != "bpmn2:manualTask"@[6]);
        assert(("bpmn2:"@ + "manualTask"@) =~= "bpmn2:manualTask"@);
        assert("exclusiveGateway"@[0] != "bpmn2:manualTask"@[0]);
        assert("inclusiveGateway"@[0] != "bpmn2:manualTask"@[0]);
        assert(("bpmn2:"@ + "dataObject"@)[6] != "bpmn2:manualTask"@[6]);
        assert(("bpmn2:"@ + "dataOutput"@)[6] != "bpmn2:manualTask"@[6]);
    }
}

/// The tags of gateways, call activities and data elements are read as elements of their kinds.
#[verifier::rlimit(50)]
pub proof fn lemma_more_element_tags()
    ensures
        element_tag_read("bpmn2:exclusiveGateway"@, XmlKind::ExclusiveGateway),
        element_tag_read("bpmn2:parallelGateway"@, XmlKind::ParallelGateway),
        element_tag_read("bpmn2:inclusiveGateway"@, XmlKind::InclusiveGateway),
        element_tag_read("bpmn2:callActivity"@, XmlKind::CallActivity),
        element_tag_read("bpmn2:dataObject"@, XmlKind::DataObject),
        element_tag_read("bpmn2:dataInput"@, XmlKind::DataInput),
        element_tag_read("bpmn2:dataOutput"@, XmlKind::DataOutput),
        element_tag_read("bpmn2:dataObjectReference"@, XmlKind::DataObjectReference),
{
    reveal_strlit("bpmn2:");
    reveal_strlit("bpmn2:callActivity");
    reveal_strlit("bpmn2:dataInput");
    reveal_strlit("bpmn2:dataObject");
    reveal_strlit("bpmn2:dataObjectReference");
    reveal_strlit("bpmn2:dataOutput");
    reveal_strlit("bpmn2:exclusiveGateway");
    reveal_strlit("bpmn2:inclusiveGateway");
    reveal_strlit("bpmn2:parallelGateway");
    reveal_strlit("bpmn:");
    reveal_strlit("callActivity");
    reveal_strlit("cancelEventDefinition");
    reveal_strlit("compensateEventDefinition");
    reveal_strlit("completionCondition");
    reveal_strlit("condition");
    reveal_strlit("conditionExpression");
    reveal_strlit("conditionalEventDefinition");
    reveal_strlit("dataInput");
    reveal_strlit("dataInputAssociation");
    reveal_strlit("dataObject");
    reveal_strlit("dataObjectReference");
    reveal_strlit("dataOutput");
    reveal_strlit("dataOutputAssociation");
    reveal_strlit("documentation");
    reveal_strlit("endEvent");
    reveal_strlit("errorEventDefinition");
    reveal_strlit("escalationEventDefinition");
    reveal_strlit("exclusiveGateway");
    reveal_strlit("inclusiveGateway");
    reveal_strlit("intermediateCatchEvent");
    reveal_strlit("intermediateThrowEvent");
    reveal_strlit("linkEventDefinition");
    reveal_strlit("loopCardinality");
    reveal_strlit("manualTask");
    reveal_strlit("messageEventDefinition");
    reveal_strlit("multiInstanceLoopCharacteristics");
    reveal_strlit("parallelGateway");
    reveal_strlit("process");
    reveal_strlit("script");
    reveal_strlit("scriptTask");
    reveal_strlit("sequenceFlow");
    reveal_strlit("serviceTask");
    reveal_strlit("signalEventDefinition");
    reveal_strlit("sourceRef");
    reveal_strlit("startEvent");
    reveal_strlit("targetRef");
    reveal_strlit("terminateEventDefinition");
    reveal_strlit("timeCycle");
    reveal_strlit("timeDate");
    reveal_strlit("timeDuration");
    reveal_strlit("timerEventDefinition");
    reveal_strlit("transformation");
    reveal_strlit("userTask");
    assert forall|w: Seq<u8>| #[trigger] spells(w, "bpmn2:exclusiveGateway"@) implies element_bytes(w, XmlKind::ExclusiveGateway) by {
        lemma_is_tag_of(w, "bpmn2:exclusiveGateway"@);
        assert("intermediateCatchEvent"@[0] != "bpmn2:exclusiveGateway"@[0]);
        assert("intermediateThrowEvent"@[0] != "bpmn2:exclusiveGateway"@[0]);
        assert(("bpmn2:"@ + "exclusiveGateway"@) =~= "bpmn2:exclusiveGateway"@);
        assert(("bpmn2:"@ + "inclusiveGateway"@)[6] != "bpmn2:exclusiveGateway"@[6]);
        assert("messageEventDefinition"@[0] != "bpmn2:exclusiveGateway"@[0]);
    }
    assert forall|w: Seq<u8>| #[trigger] spells(w, "bpmn2:parallelGateway"@) implies element_bytes(w, XmlKind::ParallelGateway) by {
        lemma_is_tag_of(w, "bpmn2:parallelGateway"@);
        assert(("bpmn:"@ + "exclusiveGateway"@)[4] != "bpmn2:parallelGateway"@[4]);
        assert(("bpmn2:"@ + "parallelGateway"@) =~= "bpmn2:parallelGateway"@);
        assert(("bpmn:"@ + "inclusiveGateway"@)[4] != "bpmn2:parallelGateway"@[4]);
        assert("signalEventDefinition"@[0] != "bpmn2:parallelGateway"@[0]);
        assert("cancelEventDefinition"@[0] != "bpmn2:parallelGateway"@[0]);
        assert(("bpmn2:"@ + "loopCardinality"@)[6] != "bpmn2:parallelGateway"@[6]);
        assert("dataOutputAssociation"@[0] != "bpmn2:parallelGateway"@[0]);
    }
    assert forall|w: Seq<u8>| #[trigger] spells(w, "bpmn2:inclusiveGateway"@) implies element_bytes(w, XmlKind::InclusiveGateway) by {
        lemma_is_tag_of(w, "bpmn2:inclusiveGateway"@);
        assert("intermediateCatchEvent"@[0] != "bpmn2:inclusiveGateway"@[0]);
        assert("intermediateThrowEvent"@[0] != "bpmn2:inclusiveGateway"@[0]);
        assert(("bpmn2:"@ + "exclusiveGateway"@)[6] != "bpmn2:inclusiveGateway"@[6]);
        assert(("bpmn2:"@ + "inclusiveGateway"@) =~= "bpmn2:inclusiveGateway"@);
        assert("messageEventDefinition"@[0] != "bpmn2:inclusiveGateway"@[0]);
    }
    assert forall|w: Seq<u8>| #[trigger] spells(w, "bpmn2:callActivity"@) implies element_bytes(w, XmlKind::CallActivity) by {
        lemma_is_tag_of(w, "bpmn2:callActivity"@);
        assert(("bpmn2:"@ + "sequenceFlow"@)[6] != "bpmn2:callActivity"@[6]);
        assert(("bpmn2:"@ + "callActivity"@) =~= "bpmn2:callActivity"@);
        assert(("bpmn2:"@ + "timeDuration"@)[6] != "bpmn2:callActivity"@[6]);
        assert(("bpmn:"@ + "documentation"@)[4] != "bpmn2:callActivity"@[4]);
    }
    assert forall|w: Seq<u8>| #[trigger] spells(w, "bpmn2:dataObject"@) implies element_bytes(w, XmlKind::DataObject) by {
        lemma_is_tag_of(w, "bpmn2:dataObject"@);
        assert(("bpmn2:"@ + "startEvent"@)[6] != "bpmn2:dataObject"@[6]);
        assert(("bpmn:"@ + "serviceTask"@)[4] != "bpmn2:dataObject"@[4]);
        assert(("bpmn2:"@ + "scriptTask"@)[6] != "bpmn2:dataObject"@[6]);
        assert(("bpmn2:"@ + "manualTask"@)[6] != "bpmn2:dataObject"@[6]);
        assert("exclusiveGateway"@[0] != "bpmn2:dataObject"@[0]);
        assert("inclusiveGateway"@[0] != "bpmn2:dataObject"@[0]);
        assert(("bpmn2:"@ + "dataObject"@) =~= "bpmn2:dataObject"@);
        assert(("bpmn2:"@ + "dataOutput"@)[11] != "bpmn2:dataObject"@[11]);
    }
    assert forall|w: Seq<u8>| #[trigger] spells(w, "bpmn2:dataInput"@) implies element_bytes(w, XmlKind::DataInput) by {
        lemma_is_tag_of(w, "bpmn2:dataInput"@);
        assert(("bpmn:"@ + "startEvent"@)[4] != "bpmn2:dataInput"@[4]);
        assert(("bpmn:"@ + "scriptTask"@)[4] != "bpmn2:dataInput"@[4]);
        assert(("bpmn:"@ + "manualTask"@)[4] != "bpmn2:dataInput"@[4]);
        assert("parallelGateway"@[0] != "bpmn2:dataInput"@[0]);
        assert(("bpmn:"@ + "dataObject"@)[4] != "bpmn2:dataInput"@[4]);
        assert(("bpmn2:"@ + "dataInput"@) =~= "bpmn2:dataInput"@);
        assert(("bpmn:"@ + "dataOutput"@)[4] != "bpmn2:dataInput"@[4]);
        assert(("bpmn2:"@ + "condition"@)[6] != "bpmn2:dataInput"@[6]);
        assert(("bpmn2:"@ + "timeCycle"@)[6] != "bpmn2:dataInput"@[6]);
        assert("loopCardinality"@[0] != "bpmn2:dataInput"@[0]);
        assert(("bpmn2:"@ + "sourceRef"@)[6] != "bpmn2:dataInput"@[6]);
        assert(("bpmn2:"@ + "targetRef"@)[6] != "bpmn2:dataInput"@[6]);
    }
    assert forall|w: Seq<u8>| #[trigger] spells(w, "bpmn2:dataOutput"@) implies element_bytes(w, XmlKind::DataOutput) by {
        lemma_is_tag_of(w, "bpmn2:dataOutput"@);
        assert(("bpmn2:"@ + "startEvent"@)[6] != "bpmn2:dataOutput"@[6]);
        assert(("bpmn:"@ + "serviceTask"@)[4] != "bpmn2:dataOutput"@[4]);
        assert(("bpmn2:"@ + "scriptTask"@)[6] != "bpmn2:dataOutput"@[6]);
        assert(("bpmn2:"@ + "manualTask"@)[6] != "bpmn2:dataOutput"@[6]);
        assert("exclusiveGateway"@[0] != "bpmn2:dataOutput"@[0]);
        assert("inclusiveGateway"@[0] != "bpmn2:dataOutput"@[0]);
        assert(("bpmn2:"@ + "dataObject"@)[11] != "bpmn2:dataOutput"@[11]);
        assert(("bpmn2:"@ + "dataOutput"@) =~= "bpmn2:dataOutput"@);
    }
    assert forall|w: Seq<u8>| #[trigger] spells(w, "bpmn2:dataObjectReference"@) implies element_bytes(w, XmlKind::DataObjectReference) by {
        lemma_is_tag_of(w, "bpmn2:dataObjectReference"@);
        assert(("bpmn2:"@ + "dataObjectReference"@) =~= "bpmn2:dataObjectReference"@);
        assert(("bpmn:"@ + "timerEventDefinition"@)[4] != "bpmn2:dataObjectReference"@[4]);
        assert(("bpmn:"@ + "errorEventDefinition"@)[4] != "bpmn2:dataObjectReference"@[4]);
        assert("escalationEventDefinition"@[0] != "bpmn2:dataObjectReference"@[0]);
        assert("compensateEventDefinition"@[0] != "bpmn2:dataObjectReference"@[0]);
        assert(("bpmn2:"@ + "linkEventDefinition"@)[6] != "bpmn2:dataObjectReference"@[6]);
        assert(("bpmn2:"@ + "completionCondition"@)[6] != "bpmn2:dataObjectReference"@[6]);
        assert(("bpmn:"@ + "dataInputAssociation"@)[4] != "bpmn2:dataObjectReference"@[4]);
        assert(("bpmn2:"@ + "conditionExpression"@)[6] != "bpmn2:dataObjectReference"@[6]);
    }
}

/// The process, sequence flow and definitions tags are read as such.
#[verifier::rlimit(50)]
pub proof fn lemma_frame_tags()
    ensures
        forall|w: Seq<u8>| #[trigger] spells(w, "bpmn2:process"@) ==> is_bpmn_tag(w, "process"@),
        forall|w: Seq<u8>| #[trigger] spells(w, "bpmn2:sequenceFlow"@) ==> flow_bytes(w),
        forall|w: Seq<u8>| #[trigger] spells(w, "bpmn2:definitions"@) ==> other_bytes(w),
{
    reveal_strlit("bpmn2:");
    reveal_strlit("bpmn2:definitions");
    reveal_strlit("bpmn2:process");
    reveal_strlit("bpmn2:sequenceFlow");
    reveal_strlit("bpmn:");
    reveal_strlit("callActivity");
    reveal_strlit("cancelEventDefinition");
    reveal_strlit("compensateEventDefinition");
    reveal_strlit("completionCondition");
    reveal_strlit("condition");
    reveal_strlit("conditionExpression");
    reveal_strlit("conditionalEventDefinition");
    reveal_strlit("dataInput");
    reveal_strlit("dataInputAssociation");
    reveal_strlit("dataObject");
    reveal_strlit("dataObjectReference");
    reveal_strlit("dataOutput");
    reveal_strlit("dataOutputAssociation");
    reveal_strlit("documentation");
    reveal_strlit("endEvent");
    reveal_strlit("errorEventDefinition");
    reveal_strlit("escalationEventDefinition");
    reveal_strlit("exclusiveGateway");
    reveal_strlit("inclusiveGateway");
    reveal_strlit("intermediateCatchEvent");
    reveal_strlit("intermediateThrowEvent");
    reveal_strlit("linkEventDefinition");
    reveal_strlit("loopCardinality");
    reveal_strlit("manualTask");
    reveal_strlit("messageEventDefinition");
    reveal_strlit("multiInstanceLoopCharacteristics");
    reveal_strlit("parallelGateway");
    reveal_strlit("process");
    reveal_strlit("script");
    reveal_strlit("scriptTask");
    reveal_strlit("sequenceFlow");
    reveal_strlit("serviceTask");
    reveal_strlit("signalEventDefinition");
    reveal_strlit("sourceRef");
    reveal_strlit("startEvent");
    reveal_strlit("targetRef");
    reveal_strlit("terminateEventDefinition");
    reveal_strlit("timeCycle");
    reveal_strlit("timeDate");
    reveal_strlit("timeDuration");
    reveal_strlit("timerEventDefinition");
    reveal_strlit("transformation");
    reveal_strlit("userTask");
    assert forall|w: Seq<u8>| #[trigger] spells(w, "bpmn2:process"@) implies is_bpmn_tag(w, "process"@) by {
        lemma_is_tag_of(w, "bpmn2:process"@);
        assert(("bpmn2:"@ + "process"@) =~= "bpmn2:process"@);
        assert(("bpmn:"@ + "endEvent"@)[4] != "bpmn2:process"@[4]);
        assert(("bpmn:"@ + "userTask"@)[4] != "bpmn2:process"@[4]);
        assert(("bpmn:"@ + "timeDate"@)[4] != "bpmn2:process"@[4]);
        assert("documentation"@[0] != "bpmn2:process"@[0]);
    }
    assert forall|w: Seq<u8>| #[trigger] spells(w, "bpmn2:sequenceFlow"@) implies flow_bytes(w) by {
        lemma_is_tag_of(w, "bpmn2:sequenceFlow"@);
        assert(("bpmn2:"@ + "sequenceFlow"@) =~= "bpmn2:sequenceFlow"@);
        assert(("bpmn2:"@ + "callActivity"@)[6] != "bpmn2:sequenceFlow"@[6]);
        assert(("bpmn2:"@ + "timeDuration"@)[6] != "bpmn2:sequenceFlow"@[6]);
        assert(("bpmn:"@ + "documentation"@)[4] != "bpmn2:sequenceFlow"@[4]);
    }
    assert forall|w: Seq<u8>| #[trigger] spells(w, "bpmn2:definitions"@) implies other_bytes(w) by {
        lemma_is_tag_of(w, "bpmn2:definitions"@);
        assert(("bpmn:"@ + "sequenceFlow"@)[4] != "bpmn2:definitions"@[4]);
        assert(("bpmn2:"@ + "serviceTask"@)[6] != "bpmn2:definitions"@[6]);
        assert(("bpmn:"@ + "callActivity"@)[4] != "bpmn2:definitions"@[4]);
        assert(("bpmn:"@ + "timeDuration"@)[4] != "bpmn2:definitions"@[4]);
    }
}

/// The tags `bpmn2:messageEventDefinition`, `bpmn2:timerEventDefinition`, `bpmn2:signalEventDefinition` are read as nested tags.
#[verifier::rlimit(50)]
pub proof fn lemma_message_tags()
    ensures
        nested_tag("bpmn2:messageEventDefinition"@, XmlNested::MessageDefinition),
        nested_tag("bpmn2:timerEventDefinition"@, XmlNested::TimerDefinition),
        nested_tag("bpmn2:signalEventDefinition"@, XmlNested::SignalDefinition),
{
    reveal_strlit("bpmn2:");
    reveal_strlit("bpmn2:messageEventDefinition");
    reveal_strlit("bpmn2:signalEventDefinition");
    reveal_strlit("bpmn2:timerEventDefinition");
    reveal_strlit("bpmn:");
    reveal_strlit("callActivity");
    reveal_strlit("cancelEventDefinition");
    reveal_strlit("compensateEventDefinition");
    reveal_strlit("completionCondition");
    reveal_strlit("condition");
    reveal_strlit("conditionExpression");
    reveal_strlit("conditionalEventDefinition");
    reveal_strlit("dataInput");
    reveal_strlit("dataInputAssociation");
    reveal_strlit("dataObject");
    reveal_strlit("dataObjectReference");
    reveal_strlit("dataOutput");
    reveal_strlit("dataOutputAssociation");
    reveal_strlit("documentation");
    reveal_strlit("endEvent");
    reveal_strlit("errorEventDefinition");
    reveal_strlit("escalationEventDefinition");
    reveal_strlit("exclusiveGateway");
    reveal_strlit("inclusiveGateway");
    reveal_strlit("intermediateCatchEvent");
    reveal_strlit("intermediateThrowEvent");
    reveal_strlit("linkEventDefinition");
    reveal_strlit("loopCardinality");
    reveal_strlit("manualTask");
    reveal_strlit("messageEventDefinition");
    reveal_strlit("multiInstanceLoopCharacteristics");
    reveal_strlit("parallelGateway");
    reveal_strlit("process");
    reveal_strlit("script");
    reveal_strlit("scriptTask");
    reveal_strlit("sequenceFlow");
    reveal_strlit("serviceTask");
    reveal_strlit("signalEventDefinition");
    reveal_strlit("sourceRef");
    reveal_strlit("startEvent");
    reveal_strlit("targetRef");
    reveal_strlit("terminateEventDefinition");
    reveal_strlit("timeCycle");
    reveal_strlit("timeDate");
    reveal_strlit("timeDuration");
    reveal_strlit("timerEventDefinition");
    reveal_strlit("transformation");
    reveal_strlit("userTask");
    assert forall|w: Seq<u8>| #[trigger] spells(w, "bpmn2:messageEventDefinition"@) implies nested_bytes(w, XmlNested::MessageDefinition) by {
        lemma_is_tag_of(w, "bpmn2:messageEventDefinition"@);
        assert(("bpmn2:"@ + "intermediateCatchEvent"@)[6] != "bpmn2:messageEventDefinition"@[6]);
        assert(("bpmn2:"@ + "intermediateThrowEvent"@)[6] != "bpmn2:messageEventDefinition"@[6]);
        assert(("bpmn2:"@ + "messageEventDefinition"@) =~= "bpmn2:messageEventDefinition"@);
    }
    assert forall|w: Seq<u8>| #[trigger] spells(w, "bpmn2:timerEventDefinition"@) implies nested_bytes(w, XmlNested::TimerDefinition) by {
        lemma_is_tag_of(w, "bpmn2:timerEventDefinition"@);
        assert(("bpmn2:"@ + "timerEventDefinition"@) =~= "bpmn2:timerEventDefinition"@);
        assert(("bpmn:"@ + "signalEventDefinition"@)[4] != "bpmn2:timerEventDefinition"@[4]);
        assert(("bpmn2:"@ + "errorEventDefinition"@)[6] != "bpmn2:timerEventDefinition"@[6]);
        assert(("bpmn:"@ + "cancelEventDefinition"@)[4] != "bpmn2:timerEventDefinition"@[4]);
        assert("conditionalEventDefinition"@[0] != "bpmn2:timerEventDefinition"@[0]);
        assert(("bpmn2:"@ + "dataInputAssociation"@)[6] != "bpmn2:timerEventDefinition"@[6]);
        assert(("bpmn:"@ + "dataOutputAssociation"@)[4] != "bpmn2:timerEventDefinition"@[4]);
    }
    assert forall|w: Seq<u8>| #[trigger] spells(w, "bpmn2:signalEventDefinition"@) implies nested_bytes(w, XmlNested::SignalDefinition) by {
        lemma_is_tag_of(w, "bpmn2:signalEventDefinition"@);
        assert(("bpmn:"@ + "intermediateCatchEvent"@)[4] != "bpmn2:signalEventDefinition"@[4]);
        assert(("bpmn:"@ + "intermediateThrowEvent"@)[4] != "bpmn2:signalEventDefinition"@[4]);
        assert(("bpmn:"@ + "messageEventDefinition"@)[4] != "bpmn2:signalEventDefinition"@[4]);
        assert(("bpmn2:"@ + "signalEventDefinition"@) =~= "bpmn2:signalEventDefinition"@);
        assert(("bpmn2:"@ + "cancelEventDefinition"@)[6] != "bpmn2:signalEventDefinition"@[6]);
        assert(("bpmn2:"@ + "dataOutputAssociation"@)[6] != "bpmn2:signalEventDefinition"@[6]);
    }
}

/// The tags `bpmn2:errorEventDefinition`, `bpmn2:escalationEventDefinition`, `bpmn2:terminateEventDefinition` are read as nested tags.
#[verifier::rlimit(50)]
pub proof fn lemma_error_tags()
    ensures
        nested_tag("bpmn2:errorEventDefinition"@, XmlNested::ErrorDefinition),
        nested_tag("bpmn2:escalationEventDefinition"@, XmlNested::EscalationDefinition),
        nested_tag("bpmn2:terminateEventDefinition"@, XmlNested::TerminateDefinition),
{
    reveal_strlit("bpmn2:");
    reveal_strlit("bpmn2:errorEventDefinition");
    reveal_strlit("bpmn2:escalationEventDefinition");
    reveal_strlit("bpmn2:terminateEventDefinition");
    reveal_strlit("bpmn:");
    reveal_strlit("callActivity");
    reveal_strlit("cancelEventDefinition");
    reveal_strlit("compensateEventDefinition");
    reveal_strlit("completionCondition");
    reveal_strlit("condition");
    reveal_strlit("conditionExpression");
    reveal_strlit("conditionalEventDefinition");
    reveal_strlit("dataInput");
    reveal_strlit("dataInputAssociation");
    reveal_strlit("dataObject");
    reveal_strlit("dataObjectReference");
    reveal_strlit("dataOutput");
    reveal_strlit("dataOutputAssociation");
    reveal_strlit("documentation");
    reveal_strlit("endEvent");
    reveal_strlit("errorEventDefinition");
    reveal_strlit("escalationEventDefinition");
    reveal_strlit("exclusiveGateway");
    reveal_strlit("inclusiveGateway");
    reveal_strlit("intermediateCatchEvent");
    reveal_strlit("intermediateThrowEvent");
    reveal_strlit("linkEventDefinition");
    reveal_strlit("loopCardinality");
    reveal_strlit("manualTask");
    reveal_strlit("messageEventDefinition");
    reveal_strlit("multiInstanceLoopCharacteristics");
    reveal_strlit("parallelGateway");
    reveal_strlit("process");
    reveal_strlit("script");
    reveal_strlit("scriptTask");
    reveal_strlit("sequenceFlow");
    reveal_strlit("serviceTask");
    reveal_strlit("signalEventDefinition");
    reveal_strlit("sourceRef");
    reveal_strlit("startEvent");
    reveal_strlit("targetRef");
    reveal_strlit("terminateEventDefinition");
    reveal_strlit("timeCycle");
    reveal_strlit("timeDate");
    reveal_strlit("timeDuration");
    reveal_strlit("timerEventDefinition");
    reveal_strlit("transformation");
    reveal_strlit("userTask");
    assert forall|w: Seq<u8>| #[trigger] spells(w, "bpmn2:errorEventDefinition"@) implies nested_bytes(w, XmlNested::ErrorDefinition) by {
        lemma_is_tag_of(w, "bpmn2:errorEventDefinition"@);
        assert(("bpmn2:"@ + "timerEventDefinition"@)[6] != "bpmn2:errorEventDefinition"@[6]);
        assert(("bpmn:"@ + "signalEventDefinition"@)[4] != "bpmn2:errorEventDefinition"@[4]);
        assert(("bpmn2:"@ + "errorEventDefinition"@) =~= "bpmn2:errorEventDefinition"@);
        assert(("bpmn:"@ + "cancelEventDefinition"@)[4] != "bpmn2:errorEventDefinition"@[4]);
        assert("conditionalEventDefinition"@[0] != "bpmn2:errorEventDefinition"@[0]);
        assert(("bpmn2:"@ + "dataInputAssociation"@)[6] != "bpmn2:errorEventDefinition"@[6]);
        assert(("bpmn:"@ + "dataOutputAssociation"@)[4] != "bpmn2:errorEventDefinition"@[4]);
    }
    assert forall|w: Seq<u8>| #[trigger] spells(w, "bpmn2:escalationEventDefinition"@) implies nested_bytes(w, XmlNested::EscalationDefinition) by {
        lemma_is_tag_of(w, "bpmn2:escalationEventDefinition"@);
        assert(("bpmn2:"@ + "escalationEventDefinition"@) =~= "bpmn2:escalationEventDefinition"@);
        assert(("bpmn2:"@ + "compensateEventDefinition"@)[6] != "bpmn2:escalationEventDefinition"@[6]);
        assert(("bpmn:"@ + "conditionalEventDefinition"@)[4] != "bpmn2:escalationEventDefinition"@[4]);
    }
    assert forall|w: Seq<u8>| #[trigger] spells(w, "bpmn2:terminateEventDefinition"@) implies nested_bytes(w, XmlNested::TerminateDefinition) by {
        lemma_is_tag_of(w, "bpmn2:terminateEventDefinition"@);
        assert(("bpmn:"@ + "escalationEventDefinition"@)[4] != "bpmn2:terminateEventDefinition"@[4]);
        assert(("bpmn2:"@ + "terminateEventDefinition"@) =~= "bpmn2:terminateEventDefinition"@);
        assert(("bpmn:"@ + "compensateEventDefinition"@)[4] != "bpmn2:terminateEventDefinition"@[4]);
    }
}

/// The tags `bpmn2:cancelEventDefinition`, `bpmn2:compensateEventDefinition`, `bpmn2:linkEventDefinition` are read as nested tags.
#[verifier::rlimit(50)]
pub proof fn lemma_compensate_tags()
    ensures
        nested_tag("bpmn2:cancelEventDefinition"@, XmlNested::CancelDefinition),
        nested_tag("bpmn2:compensateEventDefinition"@, XmlNested::CompensateDefinition),
        nested_tag("bpmn2:linkEventDefinition"@, XmlNested::LinkDefinition),
{
    reveal_strlit("bpmn2:");
    reveal_strlit("bpmn2:cancelEventDefinition");
    reveal_strlit("bpmn2:compensateEventDefinition");
    reveal_strlit("bpmn2:linkEventDefinition");
    reveal_strlit("bpmn:");
    reveal_strlit("callActivity");
    reveal_strlit("cancelEventDefinition");
    reveal_strlit("compensateEventDefinition");
    reveal_strlit("completionCondition");
    reveal_strlit("condition");
    reveal_strlit("conditionExpression");
    reveal_strlit("conditionalEventDefinition");
    reveal_strlit("dataInput");
    reveal_strlit("dataInputAssociation");
    reveal_strlit("dataObject");
    reveal_strlit("dataObjectReference");
    reveal_strlit("dataOutput");
    reveal_strlit("dataOutputAssociation");
    reveal_strlit("documentation");
    reveal_strlit("endEvent");
    reveal_strlit("errorEventDefinition");
    reveal_strlit("escalationEventDefinition");
    reveal_strlit("exclusiveGateway");
    reveal_strlit("inclusiveGateway");
    reveal_strlit("intermediateCatchEvent");
    reveal_strlit("intermediateThrowEvent");
    reveal_strlit("linkEventDefinition");
    reveal_strlit("loopCardinality");
    reveal_strlit("manualTask");
    reveal_strlit("messageEventDefinition");
    reveal_strlit("multiInstanceLoopCharacteristics");
    reveal_strlit("parallelGateway");
    reveal_strlit("process");
    reveal_strlit("script");
    reveal_strlit("scriptTask");
    reveal_strlit("sequenceFlow");
    reveal_strlit("serviceTask");
    reveal_strlit("signalEventDefinition");
    reveal_strlit("sourceRef");
    reveal_strlit("startEvent");
    reveal_strlit("targetRef");
    reveal_strlit("terminateEventDefinition");
    reveal_strlit("timeCycle");
    reveal_strlit("timeDate");
    reveal_strlit("timeDuration");
    reveal_strlit("timerEventDefinition");
    reveal_strlit("transformation");
    reveal_strlit("userTask");
    assert forall|w: Seq<u8>| #[trigger] spells(w, "bpmn2:cancelEventDefinition"@) implies nested_bytes(w, XmlNested::CancelDefinition) by {
        lemma_is_tag_of(w, "bpmn2:cancelEventDefinition"@);
        assert(("bpmn:"@ + "intermediateCatchEvent"@)[4] != "bpmn2:cancelEventDefinition"@[4]);
        assert(("bpmn:"@ + "intermediateThrowEvent"@)[4] != "bpmn2:cancelEventDefinition"@[4]);
        assert(("bpmn:"@ + "messageEventDefinition"@)[4] != "bpmn2:cancelEventDefinition"@[4]);
        assert(("bpmn2:"@ + "signalEventDefinition"@)[6] != "bpmn2:cancelEventDefinition"@[6]);
        assert(("bpmn2:"@ + "cancelEventDefinition"@) =~= "bpmn2:cancelEventDefinition"@);
        assert(("bpmn2:"@ + "dataOutputAssociation"@)[6] != "bpmn2:cancelEventDefinition"@[6]);
    }
    assert forall|w: Seq<u8>| #[trigger] spells(w, "bpmn2:compensateEventDefinition"@) implies nested_bytes(w, XmlNested::CompensateDefinition) by {
        lemma_is_tag_of(w, "bpmn2:compensateEventDefinition"@);
        assert(("bpmn2:"@ + "escalationEventDefinition"@)[6] != "bpmn2:compensateEventDefinition"@[6]);
        assert(("bpmn2:"@ + "compensateEventDefinition"@) =~= "bpmn2:compensateEventDefinition"@);
        assert(("bpmn:"@ + "conditionalEventDefinition"@)[4] != "bpmn2:compensateEventDefinition"@[4]);
    }
    assert forall|w: Seq<u8>| #[trigger] spells(w, "bpmn2:linkEventDefinition"@) implies nested_bytes(w, XmlNested::LinkDefinition) by {
        lemma_is_tag_of(w, "bpmn2:linkEventDefinition"@);
        assert(("bpmn2:"@ + "dataObjectReference"@)[6] != "bpmn2:linkEventDefinition"@[6]);
        assert(("bpmn:"@ + "timerEventDefinition"@)[4] != "bpmn2:linkEventDefinition"@[4]);
        assert(("bpmn:"@ + "errorEventDefinition"@)[4] != "bpmn2:linkEventDefinition"@[4]);
        assert("escalationEventDefinition"@[0] != "bpmn2:linkEventDefinition"@[0]);
        assert("compensateEventDefinition"@[0] != "bpmn2:linkEventDefinition"@[0]);
        assert(("bpmn2:"@ + "linkEventDefinition"@) =~= "bpmn2:linkEventDefinition"@);
        assert(("bpmn2:"@ + "completionCondition"@)[6] != "bpmn2:linkEventDefinition"@[6]);
        assert(("bpmn:"@ + "dataInputAssociation"@)[4] != "bpmn2:linkEventDefinition"@[4]);
        assert(("bpmn2:"@ + "conditionExpression"@)[6] != "bpmn2:linkEventDefinition"@[6]);
    }
}

/// The tags `bpmn2:conditionalEventDefinition`, `bpmn2:condition`, `bpmn2:conditionExpression` are read as nested tags.
#[verifier::rlimit(50)]
pub proof fn lemma_condition_tags()
    ensures
        nested_tag("bpmn2:conditionalEventDefinition"@, XmlNested::ConditionalDefinition),
        nested_tag("bpmn2:condition"@, XmlNested::EventCondition),
        nested_tag("bpmn2:conditionExpression"@, XmlNested::ConditionExpression),
{
    reveal_strlit("bpmn2:");
    reveal_strlit("bpmn2:condition");
    reveal_strlit("bpmn2:conditionExpression");
    reveal_strlit("bpmn2:conditionalEventDefinition");
    reveal_strlit("bpmn:");
    reveal_strlit("callActivity");
    reveal_strlit("cancelEventDefinition");
    reveal_strlit("compensateEventDefinition");
    reveal_strlit("completionCondition");
    reveal_strlit("condition");
    reveal_strlit("conditionExpression");
    reveal_strlit("conditionalEventDefinition");
    reveal_strlit("dataInput");
    reveal_strlit("dataInputAssociation");
    reveal_strlit("dataObject");
    reveal_strlit("dataObjectReference");
    reveal_strlit("dataOutput");
    reveal_strlit("dataOutputAssociation");
    reveal_strlit("documentation");
    reveal_strlit("endEvent");
    reveal_strlit("errorEventDefinition");
    reveal_strlit("escalationEventDefinition");
    reveal_strlit("exclusiveGateway");
    reveal_strlit("inclusiveGateway");
    reveal_strlit("intermediateCatchEvent");
    reveal_strlit("intermediateThrowEvent");
    reveal_strlit("linkEventDefinition");
    reveal_strlit("loopCardinality");
    reveal_strlit("manualTask");
    reveal_strlit("messageEventDefinition");
    reveal_strlit("multiInstanceLoopCharacteristics");
    reveal_strlit("parallelGateway");
    reveal_strlit("process");
    reveal_strlit("script");
    reveal_strlit("scriptTask");
    reveal_strlit("sequenceFlow");
    reveal_strlit("serviceTask");
    reveal_strlit("signalEventDefinition");
    reveal_strlit("sourceRef");
    reveal_strlit("startEvent");
    reveal_strlit("targetRef");
    reveal_strlit("terminateEventDefinition");
    reveal_strlit("timeCycle");
    reveal_strlit("timeDate");
    reveal_strlit("timeDuration");
    reveal_strlit("timerEventDefinition");
    reveal_strlit("transformation");
    reveal_strlit("userTask");
    assert forall|w: Seq<u8>| #[trigger] spells(w, "bpmn2:conditionalEventDefinition"@) implies nested_bytes(w, XmlNested::ConditionalDefinition) by {
        lemma_is_tag_of(w, "bpmn2:conditionalEventDefinition"@);
        assert(("bpmn2:"@ + "conditionalEventDefinition"@) =~= "bpmn2:conditionalEventDefinition"@);
        assert("multiInstanceLoopCharacteristics"@[0] != "bpmn2:conditionalEventDefinition"@[0]);
    }
    assert forall|w: Seq<u8>| #[trigger] spells(w, "bpmn2:condition"@) implies nested_bytes(w, XmlNested::EventCondition) by {
        lemma_is_tag_of(w, "bpmn2:condition"@);
        assert(("bpmn:"@ + "startEvent"@)[4] != "bpmn2:condition"@[4]);
        assert(("bpmn:"@ + "scriptTask"@)[4] != "bpmn2:condition"@[4]);
        assert(("bpmn:"@ + "manualTask"@)[4] != "bpmn2:condition"@[4]);
        assert("parallelGateway"@[0] != "bpmn2:condition"@[0]);
        assert(("bpmn:"@ + "dataObject"@)[4] != "bpmn2:condition"@[4]);
        assert(("bpmn2:"@ + "dataInput"@)[6] != "bpmn2:condition"@[6]);
        assert(("bpmn:"@ + "dataOutput"@)[4] != "bpmn2:condition"@[4]);
        assert(("bpmn2:"@ + "condition"@) =~= "bpmn2:condition"@);
        assert(("bpmn2:"@ + "timeCycle"@)[6] != "bpmn2:condition"@[6]);
        assert("loopCardinality"@[0] != "bpmn2:condition"@[0]);
        assert(("bpmn2:"@ + "sourceRef"@)[6] != "bpmn2:condition"@[6]);
        assert(("bpmn2:"@ + "targetRef"@)[6] != "bpmn2:condition"@[6]);
    }
    assert forall|w: Seq<u8>| #[trigger] spells(w, "bpmn2:conditionExpression"@) implies nested_bytes(w, XmlNested::ConditionExpression) by {
        lemma_is_tag_of(w, "bpmn2:conditionExpression"@);
        assert(("bpmn2:"@ + "dataObjectReference"@)[6] != "bpmn2:conditionExpression"@[6]);
        assert(("bpmn:"@ + "timerEventDefinition"@)[4] != "bpmn2:conditionExpression"@[4]);
        assert(("bpmn:"@ + "errorEventDefinition"@)[4] != "bpmn2:conditionExpression"@[4]);
        assert("escalationEventDefinition"@[0] != "bpmn2:conditionExpression"@[0]);
        assert("compensateEventDefinition"@[0] != "bpmn2:conditionExpression"@[0]);
        assert(("bpmn2:"@ + "linkEventDefinition"@)[6] != "bpmn2:conditionExpression"@[6]);
        assert(("bpmn2:"@ + "completionCondition"@)[8] != "bpmn2:conditionExpression"@[8]);
        assert(("bpmn:"@ + "dataInputAssociation"@)[4] != "bpmn2:conditionExpression"@[4]);
        assert(("bpmn2:"@ + "conditionExpression"@) =~= "bpmn2:conditionExpression"@);
    }
}

/// The tags `bpmn2:timeDuration`, `bpmn2:timeDate`, `bpmn2:timeCycle` are read as nested tags.
#[verifier::rlimit(50)]
pub proof fn lemma_time_tags()
    ensures
        nested_tag("bpmn2:timeDuration"@, XmlNested::TimeText),
        nested_tag("bpmn2:timeDate"@, XmlNested::TimeText),
        nested_tag("bpmn2:timeCycle"@, XmlNested::TimeText),
{
    reveal_strlit("bpmn2:");
    reveal_strlit("bpmn2:timeCycle");
    reveal_strlit("bpmn2:timeDate");
    reveal_strlit("bpmn2:timeDuration");
    reveal_strlit("bpmn:");
    reveal_strlit("callActivity");
    reveal_strlit("cancelEventDefinition");
    reveal_strlit("compensateEventDefinition");
    reveal_strlit("completionCondition");
    reveal_strlit("condition");
    reveal_strlit("conditionExpression");
    reveal_strlit("conditionalEventDefinition");
    reveal_strlit("dataInput");
    reveal_strlit("dataInputAssociation");
    reveal_strlit("dataObject");
    reveal_strlit("dataObjectReference");
    reveal_strlit("dataOutput");
    reveal_strlit("dataOutputAssociation");
    reveal_strlit("documentation");
    reveal_strlit("endEvent");
    reveal_strlit("errorEventDefinition");
    reveal_strlit("escalationEventDefinition");
    reveal_strlit("exclusiveGateway");
    reveal_strlit("inclusiveGateway");
    reveal_strlit("intermediateCatchEvent");
    reveal_strlit("intermediateThrowEvent");
    reveal_strlit("linkEventDefinition");
    reveal_strlit("loopCardinality");
    reveal_strlit("manualTask");
    reveal_strlit("messageEventDefinition");
    reveal_strlit("multiInstanceLoopCharacteristics");
    reveal_strlit("parallelGateway");
    reveal_strlit("process");
    reveal_strlit("script");
    reveal_strlit("scriptTask");
    reveal_strlit("sequenceFlow");
    reveal_strlit("serviceTask");
    reveal_strlit("signalEventDefinition");
    reveal_strlit("sourceRef");
    reveal_strlit("startEvent");
    reveal_strlit("targetRef");
    reveal_strlit("terminateEventDefinition");
    reveal_strlit("timeCycle");
    reveal_strlit("timeDate");
    reveal_strlit("timeDuration");
    reveal_strlit("timerEventDefinition");
    reveal_strlit("transformation");
    reveal_strlit("userTask");
    assert forall|w: Seq<u8>| #[trigger] spells(w, "bpmn2:timeDuration"@) implies nested_bytes(w, XmlNested::TimeText) by {
        lemma_is_tag_of(w, "bpmn2:timeDuration"@);
        assert(("bpmn2:"@ + "sequenceFlow"@)[6] != "bpmn2:timeDuration"@[6]);
        assert(("bpmn2:"@ + "callActivity"@)[6] != "bpmn2:timeDuration"@[6]);
        assert(("bpmn2:"@ + "timeDuration"@) =~= "bpmn2:timeDuration"@);
        assert(("bpmn:"@ + "documentation"@)[4] != "bpmn2:timeDuration"@[4]);
    }
    assert forall|w: Seq<u8>| #[trigger] spells(w, "bpmn2:timeDate"@) implies nested_bytes(w, XmlNested::TimeText) by {
        lemma_is_tag_of(w, "bpmn2:timeDate"@);
        assert(("bpmn2:"@ + "endEvent"@)[6] != "bpmn2:timeDate"@[6]);
        assert(("bpmn2:"@ + "userTask"@)[6] != "bpmn2:timeDate"@[6]);
        assert(("bpmn:"@ + "dataInput"@)[4] != "bpmn2:timeDate"@[4]);
        assert(("bpmn:"@ + "condition"@)[4] != "bpmn2:timeDate"@[4]);
        assert(("bpmn2:"@ + "timeDate"@) =~= "bpmn2:timeDate"@);
        assert(("bpmn:"@ + "timeCycle"@)[4] != "bpmn2:timeDate"@[4]);
        assert(("bpmn:"@ + "sourceRef"@)[4] != "bpmn2:timeDate"@[4]);
        assert(("bpmn:"@ + "targetRef"@)[4] != "bpmn2:timeDate"@[4]);
        assert("transformation"@[0] != "bpmn2:timeDate"@[0]);
    }
    assert forall|w: Seq<u8>| #[trigger] spells(w, "bpmn2:timeCycle"@) implies nested_bytes(w, XmlNested::TimeText) by {
        lemma_is_tag_of(w, "bpmn2:timeCycle"@);
        assert(("bpmn:"@ + "startEvent"@)[4] != "bpmn2:timeCycle"@[4]);
        assert(("bpmn:"@ + "scriptTask"@)[4] != "bpmn2:timeCycle"@[4]);
        assert(("bpmn:"@ + "manualTask"@)[4] != "bpmn2:timeCycle"@[4]);
        assert("parallelGateway"@[0] != "bpmn2:timeCycle"@[0]);
        assert(("bpmn:"@ + "dataObject"@)[4] != "bpmn2:timeCycle"@[4]);
        assert(("bpmn2:"@ + "dataInput"@)[6] != "bpmn2:timeCycle"@[6]);
        assert(("bpmn:"@ + "dataOutput"@)[4] != "bpmn2:timeCycle"@[4]);
        assert(("bpmn2:"@ + "condition"@)[6] != "bpmn2:timeCycle"@[6]);
        assert(("bpmn2:"@ + "timeCycle"@) =~= "bpmn2:timeCycle"@);
        assert("loopCardinality"@[0] != "bpmn2:timeCycle"@[0]);
        assert(("bpmn2:"@ + "sourceRef"@)[6] != "bpmn2:timeCycle"@[6]);
        assert(("bpmn2:"@ + "targetRef"@)[7] != "bpmn2:timeCycle"@[7]);
    }
}

/// The tags `bpmn2:multiInstanceLoopCharacteristics`, `bpmn2:loopCardinality`, `bpmn2:completionCondition` are read as nested tags.
#[verifier::rlimit(50)]
pub proof fn lemma_loop_tags()
    ensures
        nested_tag("bpmn2:multiInstanceLoopCharacteristics"@, XmlNested::MultiInstance),
        nested_tag("bpmn2:loopCardinality"@, XmlNested::LoopCardinality),
        nested_tag("bpmn2:completionCondition"@, XmlNested::CompletionCondition),
{
    reveal_strlit("bpmn2:");
    reveal_strlit("bpmn2:completionCondition");
    reveal_strlit("bpmn2:loopCardinality");
    reveal_strlit("bpmn2:multiInstanceLoopCharacteristics");
    reveal_strlit("bpmn:");
    reveal_strlit("callActivity");
    reveal_strlit("cancelEventDefinition");
    reveal_strlit("compensateEventDefinition");
    reveal_strlit("completionCondition");
    reveal_strlit("condition");
    reveal_strlit("conditionExpression");
    reveal_strlit("conditionalEventDefinition");
    reveal_strlit("dataInput");
    reveal_strlit("dataInputAssociation");
    reveal_strlit("dataObject");
    reveal_strlit("dataObjectReference");
    reveal_strlit("dataOutput");
    reveal_strlit("dataOutputAssociation");
    reveal_strlit("documentation");
    reveal_strlit("endEvent");
    reveal_strlit("errorEventDefinition");
    reveal_strlit("escalationEventDefinition");
    reveal_strlit("exclusiveGateway");
    reveal_strlit("inclusiveGateway");
    reveal_strlit("intermediateCatchEvent");
    reveal_strlit("intermediateThrowEvent");
    reveal_strlit("linkEventDefinition");
    reveal_strlit("loopCardinality");
    reveal_strlit("manualTask");
    reveal_strlit("messageEventDefinition");
    reveal_strlit("multiInstanceLoopCharacteristics");
    reveal_strlit("parallelGateway");
    reveal_strlit("process");
    reveal_strlit("script");
    reveal_strlit("scriptTask");
    reveal_strlit("sequenceFlow");
    reveal_strlit("serviceTask");
    reveal_strlit("signalEventDefinition");
    reveal_strlit("sourceRef");
    reveal_strlit("startEvent");
    reveal_strlit("targetRef");
    reveal_strlit("terminateEventDefinition");
    reveal_strlit("timeCycle");
    reveal_strlit("timeDate");
    reveal_strlit("timeDuration");
    reveal_strlit("timerEventDefinition");
    reveal_strlit("transformation");
    reveal_strlit("userTask");
    assert forall|w: Seq<u8>| #[trigger] spells(w, "bpmn2:multiInstanceLoopCharacteristics"@) implies nested_bytes(w, XmlNested::MultiInstance) by {
        lemma_is_tag_of(w, "bpmn2:multiInstanceLoopCharacteristics"@);
        assert(("bpmn2:"@ + "multiInstanceLoopCharacteristics"@) =~= "bpmn2:multiInstanceLoopCharacteristics"@);
    }
    assert forall|w: Seq<u8>| #[trigger] spells(w, "bpmn2:loopCardinality"@) implies nested_bytes(w, XmlNested::LoopCardinality) by {
        lemma_is_tag_of(w, "bpmn2:loopCardinality"@);
        assert(("bpmn:"@ + "exclusiveGateway"@)[4] != "bpmn2:loopCardinality"@[4]);
        assert(("bpmn2:"@ + "parallelGateway"@)[6] != "bpmn2:loopCardinality"@[6]);
        assert(("bpmn:"@ + "inclusiveGateway"@)[4] != "bpmn2:loopCardinality"@[4]);
        assert("signalEventDefinition"@[0] != "bpmn2:loopCardinality"@[0]);
        assert("cancelEventDefinition"@[0] != "bpmn2:loopCardinality"@[0]);
        assert(("bpmn2:"@ + "loopCardinality"@) =~= "bpmn2:loopCardinality"@);
        assert("dataOutputAssociation"@[0] != "bpmn2:loopCardinality"@[0]);
    }
    assert forall|w: Seq<u8>| #[trigger] spells(w, "bpmn2:completionCondition"@) implies nested_bytes(w, XmlNested::CompletionCondition) by {
        lemma_is_tag_of(w, "bpmn2:completionCondition"@);
        assert(("bpmn2:"@ + "dataObjectReference"@)[6] != "bpmn2:completionCondition"@[6]);
        assert(("bpmn:"@ + "timerEventDefinition"@)[4] != "bpmn2:completionCondition"@[4]);
        assert(("bpmn:"@ + "errorEventDefinition"@)[4] != "bpmn2:completionCondition"@[4]);
        assert("escalationEventDefinition"@[0] != "bpmn2:completionCondition"@[0]);
        assert("compensateEventDefinition"@[0] != "bpmn2:completionCondition"@[0]);
        assert(("bpmn2:"@ + "linkEventDefinition"@)[6] != "bpmn2:completionCondition"@[6]);
        assert(("bpmn2:"@ + "completionCondition"@) =~= "bpmn2:completionCondition"@);
        assert(("bpmn:"@ + "dataInputAssociation"@)[4] != "bpmn2:completionCondition"@[4]);
        assert(("bpmn2:"@ + "conditionExpression"@)[8] != "bpmn2:completionCondition"@[8]);
    }
}

/// The tags `bpmn2:dataInputAssociation`, `bpmn2:dataOutputAssociation`, `bpmn2:transformation` are read as nested tags.
#[verifier::rlimit(50)]
pub proof fn lemma_association_tags()
    ensures
        nested_tag("bpmn2:dataInputAssociation"@, XmlNested::InputAssociation),
        nested_tag("bpmn2:dataOutputAssociation"@, XmlNested::OutputAssociation),
        nested_tag("bpmn2:transformation"@, XmlNested::Transformation),
{
    reveal_strlit("bpmn2:");
    reveal_strlit("bpmn2:dataInputAssociation");
    reveal_strlit("bpmn2:dataOutputAssociation");
    reveal_strlit("bpmn2:transformation");
    reveal_strlit("bpmn:");
    reveal_strlit("callActivity");
    reveal_strlit("cancelEventDefinition");
    reveal_strlit("compensateEventDefinition");
    reveal_strlit("completionCondition");
    reveal_strlit("condition");
    reveal_strlit("conditionExpression");
    reveal_strlit("conditionalEventDefinition");
    reveal_strlit("dataInput");
    reveal_strlit("dataInputAssociation");
    reveal_strlit("dataObject");
    reveal_strlit("dataObjectReference");
    reveal_strlit("dataOutput");
    reveal_strlit("dataOutputAssociation");
    reveal_strlit("documentation");
    reveal_strlit("endEvent");
    reveal_strlit("errorEventDefinition");
    reveal_strlit("escalationEventDefinition");
    reveal_strlit("exclusiveGateway");
    reveal_strlit("inclusiveGateway");
    reveal_strlit("intermediateCatchEvent");
    reveal_strlit("intermediateThrowEvent");
    reveal_strlit("linkEventDefinition");
    reveal_strlit("loopCardinality");
    reveal_strlit("manualTask");
    reveal_strlit("messageEventDefinition");
    reveal_strlit("multiInstanceLoopCharacteristics");
    reveal_strlit("parallelGateway");
    reveal_strlit("process");
    reveal_strlit("script");
    reveal_strlit("scriptTask");
    reveal_strlit("sequenceFlow");
    reveal_strlit("serviceTask");
    reveal_strlit("signalEventDefinition");
    reveal_strlit("sourceRef");
    reveal_strlit("startEvent");
    reveal_strlit("targetRef");
    reveal_strlit("terminateEventDefinition");
    reveal_strlit("timeCycle");
    reveal_strlit("timeDate");
    reveal_strlit("timeDuration");
    reveal_strlit("timerEventDefinition");
    reveal_strlit("transformation");
    reveal_strlit("userTask");
    assert forall|w: Seq<u8>| #[trigger] spells(w, "bpmn2:dataInputAssociation"@) implies nested_bytes(w, XmlNested::InputAssociation) by {
        lemma_is_tag_of(w, "bpmn2:dataInputAssociation"@);
        assert(("bpmn2:"@ + "timerEventDefinition"@)[6] != "bpmn2:dataInputAssociation"@[6]);
        assert(("bpmn:"@ + "signalEventDefinition"@)[4] != "bpmn2:dataInputAssociation"@[4]);
        assert(("bpmn2:"@ + "errorEventDefinition"@)[6] != "bpmn2:dataInputAssociation"@[6]);
        assert(("bpmn:"@ + "cancelEventDefinition"@)[4] != "bpmn2:dataInputAssociation"@[4]);
        assert("conditionalEventDefinition"@[0] != "bpmn2:dataInputAssociation"@[0]);
        assert(("bpmn2:"@ + "dataInputAssociation"@) =~= "bpmn2:dataInputAssociation"@);
        assert(("bpmn:"@ + "dataOutputAssociation"@)[4] != "bpmn2:dataInputAssociation"@[4]);
    }
    assert forall|w: Seq<u8>| #[trigger] spells(w, "bpmn2:dataOutputAssociation"@) implies nested_bytes(w, XmlNested::OutputAssociation) by {
        lemma_is_tag_of(w, "bpmn2:dataOutputAssociation"@);
        assert(("bpmn:"@ + "intermediateCatchEvent"@)[4] != "bpmn2:dataOutputAssociation"@[4]);
        assert(("bpmn:"@ + "intermediateThrowEvent"@)[4] != "bpmn2:dataOutputAssociation"@[4]);
        assert(("bpmn:"@ + "messageEventDefinition"@)[4] != "bpmn2:dataOutputAssociation"@[4]);
        assert(("bpmn2:"@ + "signalEventDefinition"@)[6] != "bpmn2:dataOutputAssociation"@[6]);
        assert(("bpmn2:"@ + "cancelEventDefinition"@)[6] != "bpmn2:dataOutputAssociation"@[6]);
        assert(("bpmn2:"@ + "dataOutputAssociation"@) =~= "bpmn2:dataOutputAssociation"@);
    }
    assert forall|w: Seq<u8>| #[trigger] spells(w, "bpmn2:transformation"@) implies nested_bytes(w, XmlNested::Transformation) by {
        lemma_is_tag_of(w, "bpmn2:transformation"@);
        assert(("bpmn:"@ + "parallelGateway"@)[4] != "bpmn2:transformation"@[4]);
        assert("timerEventDefinition"@[0] != "bpmn2:transformation"@[0]);
        assert("errorEventDefinition"@[0] != "bpmn2:transformation"@[0]);
        assert(("bpmn:"@ + "loopCardinality"@)[4] != "bpmn2:transformation"@[4]);
        assert("dataInputAssociation"@[0] != "bpmn2:transformation"@[0]);
        assert(("bpmn2:"@ + "transformation"@) =~= "bpmn2:transformation"@);
    }
}

/// The tags `bpmn2:sourceRef`, `bpmn2:targetRef` are read as nested tags.
#[verifier::rlimit(50)]
pub proof fn lemma_reference_tags()
    ensures
        nested_tag("bpmn2:sourceRef"@, XmlNested::SourceRef),
        nested_tag("bpmn2:targetRef"@, XmlNested::TargetRef),
{
    reveal_strlit("bpmn2:");
    reveal_strlit("bpmn2:sourceRef");
    reveal_strlit("bpmn2:targetRef");
    reveal_strlit("bpmn:");
    reveal_strlit("callActivity");
    reveal_strlit("cancelEventDefinition");
    reveal_strlit("compensateEventDefinition");
    reveal_strlit("completionCondition");
    reveal_strlit("condition");
    reveal_strlit("conditionExpression");
    reveal_strlit("conditionalEventDefinition");
    reveal_strlit("dataInput");
    reveal_strlit("dataInputAssociation");
    reveal_strlit("dataObject");
    reveal_strlit("dataObjectReference");
    reveal_strlit("dataOutput");
    reveal_strlit("dataOutputAssociation");
    reveal_strlit("documentation");
    reveal_strlit("endEvent");
    reveal_strlit("errorEventDefinition");
    reveal_strlit("escalationEventDefinition");
    reveal_strlit("exclusiveGateway");
    reveal_strlit("inclusiveGateway");
    reveal_strlit("intermediateCatchEvent");
    reveal_strlit("intermediateThrowEvent");
    reveal_strlit("linkEventDefinition");
    reveal_strlit("loopCardinality");
    reveal_strlit("manualTask");
    reveal_strlit("messageEventDefinition");
    reveal_strlit("multiInstanceLoopCharacteristics");
    reveal_strlit("parallelGateway");
    reveal_strlit("process");
    reveal_strlit("script");
    reveal_strlit("scriptTask");
    reveal_strlit("sequenceFlow");
    reveal_strlit("serviceTask");
    reveal_strlit("signalEventDefinition");
    reveal_strlit("sourceRef");
    reveal_strlit("startEvent");
    reveal_strlit("targetRef");
    reveal_strlit("terminateEventDefinition");
    reveal_strlit("timeCycle");
    reveal_strlit("timeDate");
    reveal_strlit("timeDuration");
    reveal_strlit("timerEventDefinition");
    reveal_strlit("transformation");
    reveal_strlit("userTask");
    assert forall|w: Seq<u8>| #[trigger] spells(w, "bpmn2:sourceRef"@) implies nested_bytes(w, XmlNested::SourceRef) by {
        lemma_is_tag_of(w, "bpmn2:sourceRef"@);
        assert(("bpmn:"@ + "startEvent"@)[4] != "bpmn2:sourceRef"@[4]);
        assert(("bpmn:"@ + "scriptTask"@)[4] != "bpmn2:sourceRef"@[4]);
        assert(("bpmn:"@ + "manualTask"@)[4] != "bpmn2:sourceRef"@[4]);
        assert("parallelGateway"@[0] != "bpmn2:sourceRef"@[0]);
        assert(("bpmn:"@ + "dataObject"@)[4] != "bpmn2:sourceRef"@[4]);
        assert(("bpmn2:"@ + "dataInput"@)[6] != "bpmn2:sourceRef"@[6]);
        assert(("bpmn:"@ + "dataOutput"@)[4] != "bpmn2:sourceRef"@[4]);
        assert(("bpmn2:"@ + "condition"@)[6] != "bpmn2:sourceRef"@[6]);
        assert(("bpmn2:"@ + "timeCycle"@)[6] != "bpmn2:sourceRef"@[6]);
        assert("loopCardinality"@[0] != "bpmn2:sourceRef"@[0]);
        assert(("bpmn2:"@ + "sourceRef"@) =~= "bpmn2:sourceRef"@);
        assert(("bpmn2:"@ + "targetRef"@)[6] != "bpmn2:sourceRef"@[6]);
    }
    assert forall|w: Seq<u8>| #[trigger] spells(w, "bpmn2:targetRef"@) implies nested_bytes(w, XmlNested::TargetRef) by {
        lemma_is_tag_of(w, "bpmn2:targetRef"@);
        assert(("bpmn:"@ + "startEvent"@)[4] != "bpmn2:targetRef"@[4]);
        assert(("bpmn:"@ + "scriptTask"@)[4] != "bpmn2:targetRef"@[4]);
        assert(("bpmn:"@ + "manualTask"@)[4] != "bpmn2:targetRef"@[4]);
        assert("parallelGateway"@[0] != "bpmn2:targetRef"@[0]);
        assert(("bpmn:"@ + "dataObject"@)[4] != "bpmn2:targetRef"@[4]);
        assert(("bpmn2:"@ + "dataInput"@)[6] != "bpmn2:targetRef"@[6]);
        assert(("bpmn:"@ + "dataOutput"@)[4] != "bpmn2:targetRef"@[4]);
        assert(("bpmn2:"@ + "condition"@)[6] != "bpmn2:targetRef"@[6]);
        assert(("bpmn2:"@ + "timeCycle"@)[7] != "bpmn2:targetRef"@[7]);
        assert("loopCardinality"@[0] != "bpmn2:targetRef"@[0]);
        assert(("bpmn2:"@ + "sourceRef"@)[6] != "bpmn2:targetRef"@[6]);
        assert(("bpmn2:"@ + "targetRef"@) =~= "bpmn2:targetRef"@);
    }
}

/// The tags `bpmn2:documentation`, `bpmn2:script` are read as nested tags.
#[verifier::rlimit(50)]
pub proof fn lemma_note_tags()
    ensures
        nested_tag("bpmn2:documentation"@, XmlNested::Documentation),
        nested_tag("bpmn2:script"@, XmlNested::Script),
{
    reveal_strlit("bpmn2:");
    reveal_strlit("bpmn2:documentation");
    reveal_strlit("bpmn2:script");
    reveal_strlit("bpmn:");
    reveal_strlit("callActivity");
    reveal_strlit("cancelEventDefinition");
    reveal_strlit("compensateEventDefinition");
    reveal_strlit("completionCondition");
    reveal_strlit("condition");
    reveal_strlit("conditionExpression");
    reveal_strlit("conditionalEventDefinition");
    reveal_strlit("dataInput");
    reveal_strlit("dataInputAssociation");
    reveal_strlit("dataObject");
    reveal_strlit("dataObjectReference");
    reveal_strlit("dataOutput");
    reveal_strlit("dataOutputAssociation");
    reveal_strlit("documentation");
    reveal_strlit("endEvent");
    reveal_strlit("errorEventDefinition");
    reveal_strlit("escalationEventDefinition");
    reveal_strlit("exclusiveGateway");
    reveal_strlit("inclusiveGateway");
    reveal_strlit("intermediateCatchEvent");
    reveal_strlit("intermediateThrowEvent");
    reveal_strlit("linkEventDefinition");
    reveal_strlit("loopCardinality");
    reveal_strlit("manualTask");
    reveal_strlit("messageEventDefinition");
    reveal_strlit("multiInstanceLoopCharacteristics");
    reveal_strlit("parallelGateway");
    reveal_strlit("process");
    reveal_strlit("script");
    reveal_strlit("scriptTask");
    reveal_strlit("sequenceFlow");
    reveal_strlit("serviceTask");
    reveal_strlit("signalEventDefinition");
    reveal_strlit("sourceRef");
    reveal_strlit("startEvent");
    reveal_strlit("targetRef");
    reveal_strlit("terminateEventDefinition");
    reveal_strlit("timeCycle");
    reveal_strlit("timeDate");
    reveal_strlit("timeDuration");
    reveal_strlit("timerEventDefinition");
    reveal_strlit("transformation");
    reveal_strlit("userTask");
    assert forall|w: Seq<u8>| #[trigger] spells(w, "bpmn2:documentation"@) implies nested_bytes(w, XmlNested::Documentation) by {
        lemma_is_tag_of(w, "bpmn2:documentation"@);
        assert("dataObjectReference"@[0] != "bpmn2:documentation"@[0]);
        assert("linkEventDefinition"@[0] != "bpmn2:documentation"@[0]);
        assert("completionCondition"@[0] != "bpmn2:documentation"@[0]);
        assert(("bpmn:"@ + "transformation"@)[4] != "bpmn2:documentation"@[4]);
        assert("conditionExpression"@[0] != "bpmn2:documentation"@[0]);
        assert(("bpmn2:"@ + "documentation"@) =~= "bpmn2:documentation"@);
    }
    assert forall|w: Seq<u8>| #[trigger] spells(w, "bpmn2:script"@) implies nested_bytes(w, XmlNested::Script) by {
        lemma_is_tag_of(w, "bpmn2:script"@);
        assert(("bpmn:"@ + "process"@)[4] != "bpmn2:script"@[4]);
        assert("sequenceFlow"@[0] != "bpmn2:script"@[0]);
        assert("callActivity"@[0] != "bpmn2:script"@[0]);
        assert("timeDuration"@[0] != "bpmn2:script"@[0]);
        assert(("bpmn2:"@ + "script"@) =~= "bpmn2:script"@);
    }
}

/// The value of the attribute `key` among `a` followed by `b`.
pub proof fn lemma_written_concat(a: Seq<(Seq<char>, Seq<char>)>, b: Seq<(Seq<char>, Seq<char>)>, key: Seq<char>)
    ensures
        written_attribute(a + b, key) == match written_attribute(b, key) {
            Some(v) => Some(v),
            None => written_attribute(a, key),
        },
    decreases b.len(),
{
    if b.len() == 0 {
        assert(a + b =~= a);
    } else {
        assert((a + b).drop_last() =~= a + b.drop_last());
        assert((a + b).last() == b.last());
        lemma_written_concat(a, b.drop_last(), key);
    }
}

/// The value of the attribute `key` among the written optional attribute.
pub proof fn lemma_written_opt(k: Seq<char>, v: Option<String>, key: Seq<char>)
    ensures
        written_attribute(opt_attribute(k, v), key) == if k == key {
            opt_text(v)
        } else {
            None
        },
{
    assert(written_attribute(Seq::empty(), key) is None);
    match v {
        Some(s) => {
            assert(opt_attribute(k, v).drop_last() =~= Seq::<(Seq<char>, Seq<char>)>::empty());
        },
        None => {},
    }
}

/// The value of the attribute `key` among one written attribute.
pub proof fn lemma_written_one(k: Seq<char>, v: Seq<char>, key: Seq<char>)
    ensures
        written_attribute(seq![(k, v)], key) == if k == key {
            Some(v)
        } else {
            None
        },
{
    assert(seq![(k, v)].drop_last() =~= Seq::<(Seq<char>, Seq<char>)>::empty());
    assert(written_attribute(Seq::empty(), key) is None);
}

/// The value of the attribute `key` among the attributes `id` and `name`.
pub proof fn lemma_written_named(id: Seq<char>, name: Option<String>, key: Seq<char>)
    ensures
        written_attribute(named_attributes(id, name), key) == if key == "name"@ {
            opt_text(name)
        } else if key == "id"@ {
            Some(id)
        } else {
            None
        },
{
    reveal_strlit("id");
    reveal_strlit("name");
    assert("name"@.len() == 4 && "id"@.len() == 2);
    assert("name"@ != "id"@);
    lemma_written_concat(seq![("id"@, id)], opt_attribute("name"@, name), key);
    lemma_written_one("id"@, id, key);
    lemma_written_opt("name"@, name, key);
}

/// `x` with the documentation `doc`, when there is one.
pub open spec fn with_documentation(x: XmlElement, doc: Option<String>) -> XmlElement {
    match doc {
        Some(t) => XmlElement { documentation: Some(t@), ..x },
        None => x,
    }
}

/// Reading an element's documentation inside its tag.
pub proof fn lemma_read_documentation(s: XmlRead, x: XmlElement, evs: Seq<XmlEventView>, doc: Option<String>)
    requires
        s.open == Some(XmlItem::Element(x)),
        s.depth > 0,
        s.slot is None,
        read_back_as(evs, opt_text_element("bpmn2:documentation"@, doc)),
    ensures
        read_from(s, evs) == with_open(s, with_documentation(x, doc), s.into_inputs),
{
    match doc {
        Some(t) => {
            lemma_note_tags();
            lemma_read_text_child(s, x, evs, "bpmn2:documentation"@, XmlNested::Documentation, Seq::empty(), t@);
        },
        None => {
            assert(evs.len() == 0);
            assert(evs =~= Seq::<XmlEventView>::empty());
        },
    }
}

/// The event definition `d` as the XML gives it back.
pub open spec fn event_xml(d: Option<EventDefinition>) -> Option<XmlEventDef> {
    match d {
        Some(EventDefinition::Message { message_ref }) => Some(XmlEventDef::Message(opt_text(message_ref))),
        Some(EventDefinition::Timer { time_definition }) => Some(XmlEventDef::Timer(opt_text(time_definition))),
        Some(EventDefinition::Signal { signal_ref }) => Some(XmlEventDef::Signal(opt_text(signal_ref))),
        Some(EventDefinition::Error { error_ref }) => Some(XmlEventDef::Error(opt_text(error_ref))),
        Some(EventDefinition::Escalation { escalation_ref }) => Some(XmlEventDef::Escalation(opt_text(escalation_ref))),
        Some(EventDefinition::Cancel) => Some(XmlEventDef::Cancel),
        Some(EventDefinition::Compensation { activity_ref }) => Some(XmlEventDef::Compensation(opt_text(activity_ref))),
        Some(EventDefinition::Conditional { condition }) => Some(XmlEventDef::Conditional(condition_view(condition))),
        Some(EventDefinition::Link { name }) => Some(XmlEventDef::Link(opt_text(name))),
        Some(EventDefinition::Terminate) => Some(XmlEventDef::Terminate),
        _ => None,
    }
}

/// Reading an event definition tag that holds its reference as the
/// attribute `key`, inside an event's tag.
pub proof fn lemma_read_ref_definition(
    s: XmlRead,
    x: XmlElement,
    evs: Seq<XmlEventView>,
    tag: Seq<char>,
    k: XmlNested,
    key: Seq<char>,
    r: Option<String>,
) -> (ab: Seq<Option<(Seq<u8>, Seq<u8>)>>)
    requires
        nested_tag(tag, k),
        s.open == Some(XmlItem::Element(x)),
        s.depth > 0,
        read_back_as(evs, wrapped(tag, opt_attribute(key, r), Seq::empty())),
    ensures
        attribute(ab, key) == opt_text(r),
        read_from(s, evs) == with_open(
            s,
            element_nested(x, Some(k), ab, s.into_inputs).0,
            element_nested(x, Some(k), ab, s.into_inputs).2,
        ),
{
    let ab = lemma_read_empty_child(s, x, evs, tag, k, opt_attribute(key, r));
    lemma_attribute_read(ab, opt_attribute(key, r), key);
    lemma_written_opt(key, r, key);
    ab
}

/// Reading the events that write the event definition `d` inside an
/// event's tag sets the event's definition.
pub proof fn lemma_read_event_definition(s: XmlRead, x: XmlElement, evs: Seq<XmlEventView>, d: Option<EventDefinition>)
    requires
        s.open == Some(XmlItem::Element(x)),
        s.depth > 0,
        s.slot is None,
        is_event_kind(x.kind),
        x.event is None,
        read_back_as(evs, event_definition_events(d)),
    ensures
        read_from(s, evs) == with_open(s, XmlElement { event: event_xml(d), ..x }, s.into_inputs),
{
    lemma_message_tags();
    lemma_error_tags();
    lemma_compensate_tags();
    lemma_condition_tags();
    let none: Option<String> = None;
    match d {
        Some(EventDefinition::Message { message_ref }) => {
            lemma_read_ref_definition(s, x, evs, "bpmn2:messageEventDefinition"@, XmlNested::MessageDefinition, "messageRef"@, message_ref);
        },
        Some(EventDefinition::Signal { signal_ref }) => {
            lemma_read_ref_definition(s, x, evs, "bpmn2:signalEventDefinition"@, XmlNested::SignalDefinition, "signalRef"@, signal_ref);
        },
        Some(EventDefinition::Error { error_ref }) => {
            lemma_read_ref_definition(s, x, evs, "bpmn2:errorEventDefinition"@, XmlNested::ErrorDefinition, "errorRef"@, error_ref);
        },
        Some(EventDefinition::Escalation { escalation_ref }) => {
            lemma_read_ref_definition(s, x, evs, "bpmn2:escalationEventDefinition"@, XmlNested::EscalationDefinition, "escalationRef"@, escalation_ref);
        },
        Some(EventDefinition::Compensation { activity_ref }) => {
            lemma_read_ref_definition(s, x, evs, "bpmn2:compensateEventDefinition"@, XmlNested::CompensateDefinition, "activityRef"@, activity_ref);
        },
        Some(EventDefinition::Link { name }) => {
            lemma_read_ref_definition(s, x, evs, "bpmn2:linkEventDefinition"@, XmlNested::LinkDefinition, "name"@, name);
        },
        Some(EventDefinition::Cancel) => {
            assert(opt_attribute("id"@, none) == Seq::<(Seq<char>, Seq<char>)>::empty());
            lemma_read_ref_definition(s, x, evs, "bpmn2:cancelEventDefinition"@, XmlNested::CancelDefinition, "id"@, none);
        },
        Some(EventDefinition::Terminate) => {
            assert(opt_attribute("id"@, none) == Seq::<(Seq<char>, Seq<char>)>::empty());
            lemma_read_ref_definition(s, x, evs, "bpmn2:terminateEventDefinition"@, XmlNested::TerminateDefinition, "id"@, none);
        },
        Some(EventDefinition::Timer { time_definition }) => {
            let c = match time_definition {
                Some(t) => text_element(time_tag(t@), Seq::empty(), t@),
                None => Seq::<XmlOutView>::empty(),
            };
            let r = lemma_read_nested(s, x, evs, "bpmn2:timerEventDefinition"@, XmlNested::TimerDefinition, Seq::empty(), c);
            let x1 = with_event(x, XmlEventDef::Timer(None));
            let s1 = XmlRead { open: Some(XmlItem::Element(x1)), slot: None, depth: s.depth + 1, ..s };
            match time_definition {
                Some(t) => {
                    lemma_time_tags();
                    lemma_read_text_child(s1, x1, r.2, time_tag(t@), XmlNested::TimeText, Seq::empty(), t@);
                },
                None => {
                    assert(r.2 =~= Seq::<XmlEventView>::empty());
                },
            }
        },
        Some(EventDefinition::Conditional { condition }) => {
            let c = condition_events("bpmn2:condition"@, condition);
            let r = lemma_read_nested(s, x, evs, "bpmn2:conditionalEventDefinition"@, XmlNested::ConditionalDefinition, Seq::empty(), c);
            let x1 = with_event(x, XmlEventDef::Conditional(None));
            let s1 = XmlRead { open: Some(XmlItem::Element(x1)), slot: None, depth: s.depth + 1, ..s };
            match condition {
                Some(cc) => {
                    let a = opt_attribute("language"@, cc.language);
                    let ab = lemma_read_text_child(s1, x1, r.2, "bpmn2:condition"@, XmlNested::EventCondition, a, cc.body@);
                    lemma_attribute_read(ab, a, "language"@);
                    lemma_written_opt("language"@, cc.language, "language"@);
                },
                None => {
                    assert(r.2 =~= Seq::<XmlEventView>::empty());
                },
            }
        },
        _ => {
            assert(evs =~= Seq::<XmlEventView>::empty());
        },
    }
}

/// The decimal text of a natural number spells it.
pub proof fn lemma_nat_text(n: nat)
    ensures
        nat_text(n).len() > 0,
        all_digits(nat_text(n)),
        digits_value(nat_text(n)) == n,
    decreases n,
{
    let d = (n % 10) as int;
    let c = digit_char(d);
    assert(c as int == d + 48);
    if n < 10 {
        assert(seq![c].drop_last() =~= Seq::<char>::empty());
        assert(digits_value(seq![c].drop_last()) == 0);
    } else {
        lemma_nat_text(n / 10);
        let t = nat_text(n / 10);
        assert(nat_text(n) == t.push(c));
        assert(t.push(c).drop_last() =~= t);
        assert((n / 10) * 10 + n % 10 == n) by (nonlinear_arith);
        assert forall|i: int| 0 <= i < t.push(c).len() implies is_digit(#[trigger] t.push(c)[i]) by {
            if i < t.len() {
                assert(t.push(c)[i] == t[i]);
            }
        }
    }
}

/// The decimal text of a 32-bit integer reads back as it.
pub proof fn lemma_i32_text(n: i32)
    ensures
        i32_text(int_text(n as int)) == Some(n),
{
    if n < 0 {
        let m = (-(n as int)) as nat;
        lemma_nat_text(m);
        let t = seq!['-'] + nat_text(m);
        assert(t.skip(1) =~= nat_text(m));
        assert(t[0] == '-');
    } else {
        lemma_nat_text(n as nat);
        let t = nat_text(n as nat);
        assert(is_digit(t[0]));
    }
}

/// Reading a text element nested in an element, when there is a text,
/// whose tag makes the text fill `slot`.
pub proof fn lemma_read_opt_text(
    s: XmlRead,
    x: XmlElement,
    evs: Seq<XmlEventView>,
    n: Seq<char>,
    k: XmlNested,
    slot: TextSlot,
    value: Option<String>,
)
    requires
        nested_tag(n, k),
        s.open == Some(XmlItem::Element(x)),
        s.depth > 0,
        s.slot is None,
        element_nested(x, Some(k), Seq::empty(), s.into_inputs) == (x, Some(slot), s.into_inputs),
        read_back_as(evs, opt_text_element(n, value)),
    ensures
        read_from(s, evs) == match value {
            Some(t) => with_open(s, element_text(x, Some(slot), s.into_inputs, t@), s.into_inputs),
            None => s,
        },
{
    match value {
        Some(t) => {
            let ab = lemma_read_text_child(s, x, evs, n, k, Seq::empty(), t@);
            assert(ab =~= Seq::<Option<(Seq<u8>, Seq<u8>)>>::empty());
        },
        None => {
            assert(evs =~= Seq::<XmlEventView>::empty());
        },
    }
}

/// The loop characteristics `m` as the XML gives them back.
pub open spec fn multi_xml(m: Option<MultiInstanceLoopCharacteristics>) -> Option<XmlMulti> {
    match m {
        Some(m) => Some(
            XmlMulti {
                is_parallel: m.is_parallel,
                cardinality: m.loop_cardinality,
                completion: opt_text(m.completion_condition),
                behavior: opt_text(m.behavior),
            },
        ),
        None => None,
    }
}

/// Reading the events that write the loop characteristics `m` inside a
/// task's tag sets the task's loop characteristics.
pub proof fn lemma_read_loop(
    s: XmlRead,
    x: XmlElement,
    evs: Seq<XmlEventView>,
    m: Option<MultiInstanceLoopCharacteristics>,
)
    requires
        s.open == Some(XmlItem::Element(x)),
        s.depth > 0,
        s.slot is None,
        is_loop_kind(x.kind),
        read_back_as(evs, loop_events(m)),
    ensures
        read_from(s, evs) == (match m {
            Some(_) => with_open(s, XmlElement { multi: multi_xml(m), ..x }, s.into_inputs),
            None => s,
        }),
{
    match m {
        Some(mm) => {
            lemma_loop_tags();
            reveal_strlit("isParallel");
            reveal_strlit("behavior");
            reveal_strlit("true");
            reveal_strlit("false");
            let a = seq![("isParallel"@, bool_text(mm.is_parallel))] + opt_attribute("behavior"@, mm.behavior);
            let cp = match mm.loop_cardinality {
                Some(c) => text_element("bpmn2:loopCardinality"@, Seq::empty(), int_text(c as int)),
                None => Seq::<XmlOutView>::empty(),
            };
            let op = opt_text_element("bpmn2:completionCondition"@, mm.completion_condition);
            let r = lemma_read_nested(s, x, evs, "bpmn2:multiInstanceLoopCharacteristics"@, XmlNested::MultiInstance, a, cp + op);
            lemma_attribute_read(r.1, a, "isParallel"@);
            lemma_attribute_read(r.1, a, "behavior"@);
            lemma_written_concat(seq![("isParallel"@, bool_text(mm.is_parallel))], opt_attribute("behavior"@, mm.behavior), "isParallel"@);
            lemma_written_concat(seq![("isParallel"@, bool_text(mm.is_parallel))], opt_attribute("behavior"@, mm.behavior), "behavior"@);
            lemma_written_one("isParallel"@, bool_text(mm.is_parallel), "isParallel"@);
            lemma_written_one("isParallel"@, bool_text(mm.is_parallel), "behavior"@);
            lemma_written_opt("behavior"@, mm.behavior, "isParallel"@);
            lemma_written_opt("behavior"@, mm.behavior, "behavior"@);
            assert("isParallel"@.len() == 10 && "behavior"@.len() == 8);
            assert("false"@.len() == 5 && "true"@.len() == 4);
            assert("isParallel"@ != "behavior"@);
            assert("false"@ != "true"@);
            let x1 = XmlElement {
                multi: Some(XmlMulti { is_parallel: mm.is_parallel, cardinality: None, completion: None, behavior: opt_text(mm.behavior) }),
                ..x
            };
            let s1 = XmlRead { open: Some(XmlItem::Element(x1)), slot: None, depth: s.depth + 1, ..s };
            let k = lemma_read_back_split(r.2, cp, op);
            assert(r.2 =~= r.2.take(k) + r.2.skip(k));
            lemma_read_from_concat(s1, r.2.take(k), r.2.skip(k));
            let x2 = match mm.loop_cardinality {
                Some(c) => XmlElement {
                    multi: Some(XmlMulti { is_parallel: mm.is_parallel, cardinality: Some(c), completion: None, behavior: opt_text(mm.behavior) }),
                    ..x
                },
                None => x1,
            };
            match mm.loop_cardinality {
                Some(c) => {
                    lemma_i32_text(c);
                    let ab = lemma_read_text_child(s1, x1, r.2.take(k), "bpmn2:loopCardinality"@, XmlNested::LoopCardinality, Seq::empty(), int_text(c as int));
                },
                None => {
                    assert(r.2.take(k) =~= Seq::<XmlEventView>::empty());
                },
            }
            let s2 = with_open(s1, x2, s.into_inputs);
            lemma_read_opt_text(s2, x2, r.2.skip(k), "bpmn2:completionCondition"@, XmlNested::CompletionCondition, TextSlot::CompletionCondition, mm.completion_condition);
        },
        None => {
            assert(evs =~= Seq::<XmlEventView>::empty());
        },
    }
}

/// The tag of input (`inputs`) or output data associations.
pub open spec fn assoc_tag(inputs: bool) -> Seq<char> {
    if inputs {
        "bpmn2:dataInputAssociation"@
    } else {
        "bpmn2:dataOutputAssociation"@
    }
}

/// `x` with the data association `a` added to its inputs (`inputs`) or
/// outputs.
pub open spec fn with_assoc(x: XmlElement, inputs: bool, a: XmlAssoc) -> XmlElement {
    if inputs {
        XmlElement { inputs: x.inputs.push(a), ..x }
    } else {
        XmlElement { outputs: x.outputs.push(a), ..x }
    }
}

/// Setting a part of the last association.
pub proof fn lemma_set_last(s: Seq<XmlAssoc>, a: XmlAssoc, field: AssocField, t: Seq<char>)
    ensures
        set_last_ref(s.push(a), field, t) == s.push(
            match field {
                AssocField::Source => XmlAssoc { source: Some(t), ..a },
                AssocField::Target => XmlAssoc { target: Some(t), ..a },
                AssocField::Transformation => XmlAssoc { transformation: Some(t), ..a },
            },
        ),
{
    assert(set_last_ref(s.push(a), field, t) =~= s.push(
        match field {
            AssocField::Source => XmlAssoc { source: Some(t), ..a },
            AssocField::Target => XmlAssoc { target: Some(t), ..a },
            AssocField::Transformation => XmlAssoc { transformation: Some(t), ..a },
        },
    ));
}

/// Reading a reference or transformation of the data association being
/// read, whose part so far is `before`.
pub proof fn lemma_read_assoc_part(
    s: XmlRead,
    x: XmlElement,
    evs: Seq<XmlEventView>,
    inputs: bool,
    before: XmlAssoc,
    n: Seq<char>,
    k: XmlNested,
    slot: TextSlot,
    field: AssocField,
    value: Option<String>,
)
    requires
        nested_tag(n, k),
        s.open == Some(XmlItem::Element(with_assoc(x, inputs, before))),
        s.depth > 0,
        s.slot is None,
        s.into_inputs == inputs,
        (k == XmlNested::SourceRef && slot == TextSlot::SourceRef && field == AssocField::Source) || (k
            == XmlNested::TargetRef && slot == TextSlot::TargetRef && field == AssocField::Target) || (k
            == XmlNested::Transformation && slot == TextSlot::Transformation && field == AssocField::Transformation),
        read_back_as(evs, opt_text_element(n, value)),
    ensures
        read_from(s, evs) == with_open(
            s,
            with_assoc(
                x,
                inputs,
                match value {
                    Some(t) => match field {
                        AssocField::Source => XmlAssoc { source: Some(t@), ..before },
                        AssocField::Target => XmlAssoc { target: Some(t@), ..before },
                        AssocField::Transformation => XmlAssoc { transformation: Some(t@), ..before },
                    },
                    None => before,
                },
            ),
            inputs,
        ),
{
    let xb = with_assoc(x, inputs, before);
    lemma_read_opt_text(s, xb, evs, n, k, slot, value);
    match value {
        Some(t) => {
            if inputs {
                lemma_set_last(x.inputs, before, field, t@);
            } else {
                lemma_set_last(x.outputs, before, field, t@);
            }
        },
        None => {},
    }
}

/// Reading the events that write the data association `a` inside a call
/// activity's tag adds it to the activity's inputs (`inputs`) or outputs.
#[verifier::rlimit(80)]
pub proof fn lemma_read_association(s: XmlRead, x: XmlElement, evs: Seq<XmlEventView>, inputs: bool, a: DataAssociation)
    requires
        s.open == Some(XmlItem::Element(x)),
        s.depth > 0,
        s.slot is None,
        x.kind == XmlKind::CallActivity,
        read_back_as(evs, association_events(assoc_tag(inputs), a)),
    ensures
        read_from(s, evs) == with_open(s, with_assoc(x, inputs, assoc_view(a)), inputs),
{
    lemma_association_tags();
    lemma_reference_tags();
    let k = if inputs {
        XmlNested::InputAssociation
    } else {
        XmlNested::OutputAssociation
    };
    let p1 = opt_text_element("bpmn2:sourceRef"@, a.source_ref);
    let p2 = opt_text_element("bpmn2:targetRef"@, a.target_ref);
    let p3 = opt_text_element("bpmn2:transformation"@, a.transformation);
    let r = lemma_read_nested(s, x, evs, assoc_tag(inputs), k, Seq::empty(), p1 + p2 + p3);
    let a0 = empty_assoc();
    assert(element_nested(x, Some(k), r.1, s.into_inputs) == (with_assoc(x, inputs, a0), None::<TextSlot>, inputs));
    let s1 = XmlRead {
        open: Some(XmlItem::Element(with_assoc(x, inputs, a0))),
        slot: None,
        into_inputs: inputs,
        depth: s.depth + 1,
        ..s
    };
    let k2 = lemma_read_back_split(r.2, p1 + p2, p3);
    let e12 = r.2.take(k2);
    let e3 = r.2.skip(k2);
    let k1 = lemma_read_back_split(e12, p1, p2);
    let e1 = e12.take(k1);
    let e2 = e12.skip(k1);
    assert(r.2 =~= e1 + e2 + e3);
    lemma_read_from_concat(s1, e1 + e2, e3);
    lemma_read_from_concat(s1, e1, e2);
    let a1 = XmlAssoc { source: opt_text(a.source_ref), ..a0 };
    let a2 = XmlAssoc { target: opt_text(a.target_ref), ..a1 };
    let a3 = XmlAssoc { transformation: opt_text(a.transformation), ..a2 };
    lemma_read_assoc_part(s1, x, e1, inputs, a0, "bpmn2:sourceRef"@, XmlNested::SourceRef, TextSlot::SourceRef, AssocField::Source, a.source_ref);
    let s2 = with_open(s1, with_assoc(x, inputs, a1), inputs);
    lemma_read_assoc_part(s2, x, e2, inputs, a1, "bpmn2:targetRef"@, XmlNested::TargetRef, TextSlot::TargetRef, AssocField::Target, a.target_ref);
    let s3 = with_open(s1, with_assoc(x, inputs, a2), inputs);
    lemma_read_assoc_part(s3, x, e3, inputs, a2, "bpmn2:transformation"@, XmlNested::Transformation, TextSlot::Transformation, AssocField::Transformation, a.transformation);
    assert(a3 == assoc_view(a));
}

/// Reading the events that write the data associations `sa` inside a call
/// activity's tag adds them to the activity's inputs (`inputs`) or outputs.
pub proof fn lemma_read_associations(
    s: XmlRead,
    x: XmlElement,
    evs: Seq<XmlEventView>,
    inputs: bool,
    sa: Seq<DataAssociation>,
)
    requires
        s.open == Some(XmlItem::Element(x)),
        s.depth > 0,
        s.slot is None,
        x.kind == XmlKind::CallActivity,
        read_back_as(evs, associations_events(assoc_tag(inputs), sa)),
    ensures
        read_from(s, evs) == with_open(
            s,
            if inputs {
                XmlElement { inputs: x.inputs + assocs_view(sa), ..x }
            } else {
                XmlElement { outputs: x.outputs + assocs_view(sa), ..x }
            },
            if sa.len() > 0 {
                inputs
            } else {
                s.into_inputs
            },
        ),
    decreases sa.len(),
{
    if sa.len() == 0 {
        assert(evs =~= Seq::<XmlEventView>::empty());
        assert(x.inputs + assocs_view(sa) =~= x.inputs);
        assert(x.outputs + assocs_view(sa) =~= x.outputs);
    } else {
        let init = sa.drop_last();
        let k = lemma_read_back_split(evs, associations_events(assoc_tag(inputs), init), association_events(assoc_tag(inputs), sa.last()));
        assert(evs =~= evs.take(k) + evs.skip(k));
        lemma_read_from_concat(s, evs.take(k), evs.skip(k));
        lemma_read_associations(s, x, evs.take(k), inputs, init);
        let xm = if inputs {
            XmlElement { inputs: x.inputs + assocs_view(init), ..x }
        } else {
            XmlElement { outputs: x.outputs + assocs_view(init), ..x }
        };
        let sm = with_open(s, xm, if init.len() > 0 { inputs } else { s.into_inputs });
        lemma_read_association(sm, xm, evs.skip(k), inputs, sa.last());
        assert(assocs_view(sa) =~= assocs_view(init).push(assoc_view(sa.last())));
        assert(x.inputs + assocs_view(sa) =~= (x.inputs + assocs_view(init)).push(assoc_view(sa.last())));
        assert(x.outputs + assocs_view(sa) =~= (x.outputs + assocs_view(init)).push(assoc_view(sa.last())));
    }
}

/// The kind of the element `e`.
pub open spec fn kind_of(e: ProcessElementView) -> XmlKind {
    match e {
        ProcessElementView::StartEvent(_) => XmlKind::StartEvent,
        ProcessElementView::EndEvent(_) => XmlKind::EndEvent,
        ProcessElementView::IntermediateCatchEvent(_) => XmlKind::IntermediateCatchEvent,
        ProcessElementView::IntermediateThrowEvent(_) => XmlKind::IntermediateThrowEvent,
        ProcessElementView::ServiceTask(_) => XmlKind::ServiceTask,
        ProcessElementView::UserTask(_) => XmlKind::UserTask,
        ProcessElementView::ScriptTask(_) => XmlKind::ScriptTask,
        ProcessElementView::ManualTask(_) => XmlKind::ManualTask,
        ProcessElementView::ExclusiveGateway(_) => XmlKind::ExclusiveGateway,
        ProcessElementView::ParallelGateway(_) => XmlKind::ParallelGateway,
        ProcessElementView::InclusiveGateway(_) => XmlKind::InclusiveGateway,
        ProcessElementView::DataObject(_) => XmlKind::DataObject,
        ProcessElementView::DataInput(_) => XmlKind::DataInput,
        ProcessElementView::DataOutput(_) => XmlKind::DataOutput,
        ProcessElementView::DataObjectReference(_) => XmlKind::DataObjectReference,
        ProcessElementView::CallActivity(_) => XmlKind::CallActivity,
    }
}

/// The first attribute `e`'s kind reads besides its ID and name.
pub open spec fn first_of(e: ProcessElementView) -> Option<Seq<char>> {
    match e {
        ProcessElementView::ServiceTask(s) => opt_text(s.implementation),
        ProcessElementView::UserTask(s) => opt_text(s.form_key),
        ProcessElementView::ScriptTask(s) => opt_text(s.script_format),
        ProcessElementView::ExclusiveGateway(s) => opt_text(s.default_flow),
        ProcessElementView::ParallelGateway(s) => opt_text(s.default_flow),
        ProcessElementView::InclusiveGateway(s) => opt_text(s.default_flow),
        ProcessElementView::DataObject(s) => opt_text(s.data_state),
        ProcessElementView::DataObjectReference(s) => opt_text(s.data_object_ref),
        ProcessElementView::CallActivity(s) => opt_text(s.called_element),
        _ => None,
    }
}

/// The second attribute `e`'s kind reads.
pub open spec fn second_of(e: ProcessElementView) -> Option<Seq<char>> {
    match e {
        ProcessElementView::ServiceTask(s) => opt_text(s.operation_ref),
        ProcessElementView::CallActivity(s) => opt_text(s.business_key),
        _ => None,
    }
}

/// The element `e` as its tag alone gives it back.
pub open spec fn bare_of(e: ProcessElementView) -> XmlElement {
    XmlElement {
        kind: kind_of(e),
        id: e.base().id@,
        name: opt_text(e.base().name),
        first: first_of(e),
        second: second_of(e),
        documentation: None,
        script: None,
        direction: match e {
            ProcessElementView::ParallelGateway(s) => s.gateway_direction,
            _ => GatewayDirection::Unknown,
        },
        event: None,
        multi: None,
        inputs: Seq::empty(),
        outputs: Seq::empty(),
    }
}

/// The element `e` as the XML that writes it gives it back.
pub open spec fn xml_of(e: ProcessElementView) -> XmlElement {
    let x = XmlElement { documentation: opt_text(e.base().documentation), ..bare_of(e) };
    match e {
        ProcessElementView::StartEvent(s) => XmlElement { event: event_xml(s.event_definition), ..x },
        ProcessElementView::EndEvent(s) => XmlElement { event: event_xml(s.event_definition), ..x },
        ProcessElementView::IntermediateCatchEvent(s) => XmlElement { event: event_xml(s.event_definition), ..x },
        ProcessElementView::IntermediateThrowEvent(s) => XmlElement { event: event_xml(s.event_definition), ..x },
        ProcessElementView::ServiceTask(s) => XmlElement { multi: multi_xml(s.loop_characteristics), ..x },
        ProcessElementView::UserTask(s) => XmlElement { multi: multi_xml(s.loop_characteristics), ..x },
        ProcessElementView::ScriptTask(s) => XmlElement {
            multi: multi_xml(s.loop_characteristics),
            script: opt_text(s.script),
            ..x
        },
        ProcessElementView::CallActivity(s) => XmlElement {
            inputs: assocs_view(s.data_input_associations),
            outputs: assocs_view(s.data_output_associations),
            ..x
        },
        _ => x,
    }
}

/// The value of the attribute `key` on the tag that writes `e`, read back.
pub proof fn lemma_tag_value(
    ab: Seq<Option<(Seq<u8>, Seq<u8>)>>,
    id: Seq<char>,
    name: Option<String>,
    extras: Seq<(Seq<char>, Seq<char>)>,
    key: Seq<char>,
)
    requires
        attributes_read_as(ab, named_attributes(id, name) + extras),
    ensures
        attribute(ab, key) == match written_attribute(extras, key) {
            Some(v) => Some(v),
            None => if key == "name"@ {
                opt_text(name)
            } else if key == "id"@ {
                Some(id)
            } else {
                None
            },
        },
{
    lemma_attribute_read(ab, named_attributes(id, name) + extras, key);
    lemma_written_concat(named_attributes(id, name), extras, key);
    lemma_written_named(id, name, key);
}

/// The tag that writes `e` opens its element bare.
pub proof fn lemma_element_tag_attributes(e: ProcessElementView, ab: Seq<Option<(Seq<u8>, Seq<u8>)>>)
    requires
        attributes_read_as(ab, element_attributes(e)),
    ensures
        attribute(ab, "id"@) == Some(e.base().id@),
        new_element(kind_of(e), e.base().id@, ab) == bare_of(e),
{
    reveal_strlit("id");
    reveal_strlit("name");
    reveal_strlit("gatewayDirection");
    reveal_strlit("implementation");
    reveal_strlit("operationRef");
    reveal_strlit("formKey");
    reveal_strlit("scriptFormat");
    reveal_strlit("default");
    reveal_strlit("calledElement");
    reveal_strlit("businessKey");
    reveal_strlit("dataState");
    reveal_strlit("dataObjectRef");
    reveal_strlit("Converging");
    reveal_strlit("Diverging");
    reveal_strlit("Mixed");
    let b = e.base();
    let named = named_attributes(b.id@, b.name);
    let a = element_attributes(e);
    let extras = a.subrange(named.len() as int, a.len() as int);
    assert(a =~= named + extras);
    assert("id"@.len() == 2);
    assert("name"@.len() == 4);
    assert("gatewayDirection"@.len() == 16);
    assert("implementation"@.len() == 14);
    assert("operationRef"@.len() == 12);
    assert("formKey"@.len() == 7);
    assert("scriptFormat"@.len() == 12);
    assert("default"@.len() == 7);
    assert("calledElement"@.len() == 13);
    assert("businessKey"@.len() == 11);
    assert("dataState"@.len() == 9);
    assert("dataObjectRef"@.len() == 13);
    assert("Converging"@.len() == 10);
    assert("Diverging"@.len() == 9);
    assert("Mixed"@.len() == 5);
    match e {
        ProcessElementView::ServiceTask(s) => {
            assert(extras =~= opt_attribute("implementation"@, s.implementation) + opt_attribute("operationRef"@, s.operation_ref));
            lemma_tag_value(ab, b.id@, b.name, extras, "id"@);
            lemma_written_concat(opt_attribute("implementation"@, s.implementation), opt_attribute("operationRef"@, s.operation_ref), "id"@);
            lemma_written_opt("implementation"@, s.implementation, "id"@);
            lemma_written_opt("operationRef"@, s.operation_ref, "id"@);
            lemma_tag_value(ab, b.id@, b.name, extras, "name"@);
            lemma_written_concat(opt_attribute("implementation"@, s.implementation), opt_attribute("operationRef"@, s.operation_ref), "name"@);
            lemma_written_opt("implementation"@, s.implementation, "name"@);
            lemma_written_opt("operationRef"@, s.operation_ref, "name"@);
            lemma_tag_value(ab, b.id@, b.name, extras, "gatewayDirection"@);
            lemma_written_concat(opt_attribute("implementation"@, s.implementation), opt_attribute("operationRef"@, s.operation_ref), "gatewayDirection"@);
            lemma_written_opt("implementation"@, s.implementation, "gatewayDirection"@);
            lemma_written_opt("operationRef"@, s.operation_ref, "gatewayDirection"@);
            lemma_tag_value(ab, b.id@, b.name, extras, "implementation"@);
            lemma_written_concat(opt_attribute("implementation"@, s.implementation), opt_attribute("operationRef"@, s.operation_ref), "implementation"@);
            lemma_written_opt("implementation"@, s.implementation, "implementation"@);
            lemma_written_opt("operationRef"@, s.operation_ref, "implementation"@);
            lemma_tag_value(ab, b.id@, b.name, extras, "operationRef"@);
            lemma_written_concat(opt_attribute("implementation"@, s.implementation), opt_attribute("operationRef"@, s.operation_ref), "operationRef"@);
            lemma_written_opt("implementation"@, s.implementation, "operationRef"@);
            lemma_written_opt("operationRef"@, s.operation_ref, "operationRef"@);
        },
        ProcessElementView::UserTask(s) => {
            assert(extras =~= opt_attribute("formKey"@, s.form_key));
            lemma_tag_value(ab, b.id@, b.name, extras, "id"@);
            lemma_written_opt("formKey"@, s.form_key, "id"@);
            lemma_tag_value(ab, b.id@, b.name, extras, "name"@);
            lemma_written_opt("formKey"@, s.form_key, "name"@);
            lemma_tag_value(ab, b.id@, b.name, extras, "gatewayDirection"@);
            lemma_written_opt("formKey"@, s.form_key, "gatewayDirection"@);
            lemma_tag_value(ab, b.id@, b.name, extras, "formKey"@);
            lemma_written_opt("formKey"@, s.form_key, "formKey"@);
        },
        ProcessElementView::ScriptTask(s) => {
            assert(extras =~= opt_attribute("scriptFormat"@, s.script_format));
            lemma_tag_value(ab, b.id@, b.name, extras, "id"@);
            lemma_written_opt("scriptFormat"@, s.script_format, "id"@);
            lemma_tag_value(ab, b.id@, b.name, extras, "name"@);
            lemma_written_opt("scriptFormat"@, s.script_format, "name"@);
            lemma_tag_value(ab, b.id@, b.name, extras, "gatewayDirection"@);
            lemma_written_opt("scriptFormat"@, s.script_format, "gatewayDirection"@);
            lemma_tag_value(ab, b.id@, b.name, extras, "scriptFormat"@);
            lemma_written_opt("scriptFormat"@, s.script_format, "scriptFormat"@);
        },
        ProcessElementView::ExclusiveGateway(s) => {
            assert(extras =~= opt_attribute("default"@, s.default_flow));
            lemma_tag_value(ab, b.id@, b.name, extras, "id"@);
            lemma_written_opt("default"@, s.default_flow, "id"@);
            lemma_tag_value(ab, b.id@, b.name, extras, "name"@);
            lemma_written_opt("default"@, s.default_flow, "name"@);
            lemma_tag_value(ab, b.id@, b.name, extras, "gatewayDirection"@);
            lemma_written_opt("default"@, s.default_flow, "gatewayDirection"@);
            lemma_tag_value(ab, b.id@, b.name, extras, "default"@);
            lemma_written_opt("default"@, s.default_flow, "default"@);
        },
        ProcessElementView::ParallelGateway(s) => {
            let d = direction_attribute(s.gateway_direction);
            assert(extras =~= opt_attribute("default"@, s.default_flow) + d);
            lemma_tag_value(ab, b.id@, b.name, extras, "id"@);
            lemma_written_concat(opt_attribute("default"@, s.default_flow), d, "id"@);
            lemma_written_opt("default"@, s.default_flow, "id"@);
            lemma_tag_value(ab, b.id@, b.name, extras, "name"@);
            lemma_written_concat(opt_attribute("default"@, s.default_flow), d, "name"@);
            lemma_written_opt("default"@, s.default_flow, "name"@);
            lemma_tag_value(ab, b.id@, b.name, extras, "gatewayDirection"@);
            lemma_written_concat(opt_attribute("default"@, s.default_flow), d, "gatewayDirection"@);
            lemma_written_opt("default"@, s.default_flow, "gatewayDirection"@);
            lemma_tag_value(ab, b.id@, b.name, extras, "default"@);
            lemma_written_concat(opt_attribute("default"@, s.default_flow), d, "default"@);
            lemma_written_opt("default"@, s.default_flow, "default"@);
            match s.gateway_direction {
                GatewayDirection::Unknown => {
                    assert(d =~= Seq::<(Seq<char>, Seq<char>)>::empty());
                    assert(written_attribute(d, "id"@) is None);
                    assert(written_attribute(d, "name"@) is None);
                    assert(written_attribute(d, "default"@) is None);
                    assert(written_attribute(d, "gatewayDirection"@) is None);
                },
                _ => {
                    assert(d =~= seq![("gatewayDirection"@, d[0].1)]);
                    lemma_written_one("gatewayDirection"@, d[0].1, "id"@);
                    lemma_written_one("gatewayDirection"@, d[0].1, "name"@);
                    lemma_written_one("gatewayDirection"@, d[0].1, "gatewayDirection"@);
                    lemma_written_one("gatewayDirection"@, d[0].1, "default"@);
                },
            }
        },
        ProcessElementView::InclusiveGateway(s) => {
            assert(extras =~= opt_attribute("default"@, s.default_flow));
            lemma_tag_value(ab, b.id@, b.name, extras, "id"@);
            lemma_written_opt("default"@, s.default_flow, "id"@);
            lemma_tag_value(ab, b.id@, b.name, extras, "name"@);
            lemma_written_opt("default"@, s.default_flow, "name"@);
            lemma_tag_value(ab, b.id@, b.name, extras, "gatewayDirection"@);
            lemma_written_opt("default"@, s.default_flow, "gatewayDirection"@);
            lemma_tag_value(ab, b.id@, b.name, extras, "default"@);
            lemma_written_opt("default"@, s.default_flow, "default"@);
        },
        ProcessElementView::DataObject(s) => {
            assert(extras =~= opt_attribute("dataState"@, s.data_state));
            lemma_tag_value(ab, b.id@, b.name, extras, "id"@);
            lemma_written_opt("dataState"@, s.data_state, "id"@);
            lemma_tag_value(ab, b.id@, b.name, extras, "name"@);
            lemma_written_opt("dataState"@, s.data_state, "name"@);
            lemma_tag_value(ab, b.id@, b.name, extras, "gatewayDirection"@);
            lemma_written_opt("dataState"@, s.data_state, "gatewayDirection"@);
            lemma_tag_value(ab, b.id@, b.name, extras, "dataState"@);
            lemma_written_opt("dataState"@, s.data_state, "dataState"@);
        },
        ProcessElementView::DataObjectReference(s) => {
            assert(extras =~= opt_attribute("dataObjectRef"@, s.data_object_ref));
            lemma_tag_value(ab, b.id@, b.name, extras, "id"@);
            lemma_written_opt("dataObjectRef"@, s.data_object_ref, "id"@);
            lemma_tag_value(ab, b.id@, b.name, extras, "name"@);
            lemma_written_opt("dataObjectRef"@, s.data_object_ref, "name"@);
            lemma_tag_value(ab, b.id@, b.name, extras, "gatewayDirection"@);
            lemma_written_opt("dataObjectRef"@, s.data_object_ref, "gatewayDirection"@);
            lemma_tag_value(ab, b.id@, b.name, extras, "dataObjectRef"@);
            lemma_written_opt("dataObjectRef"@, s.data_object_ref, "dataObjectRef"@);
        },
        ProcessElementView::CallActivity(s) => {
            assert(extras =~= opt_attribute("calledElement"@, s.called_element) + opt_attribute("businessKey"@, s.business_key));
            lemma_tag_value(ab, b.id@, b.name, extras, "id"@);
            lemma_written_concat(opt_attribute("calledElement"@, s.called_element), opt_attribute("businessKey"@, s.business_key), "id"@);
            lemma_written_opt("calledElement"@, s.called_element, "id"@);
            lemma_written_opt("businessKey"@, s.business_key, "id"@);
            lemma_tag_value(ab, b.id@, b.name, extras, "name"@);
            lemma_written_concat(opt_attribute("calledElement"@, s.called_element), opt_attribute("businessKey"@, s.business_key), "name"@);
            lemma_written_opt("calledElement"@, s.called_element, "name"@);
            lemma_written_opt("businessKey"@, s.business_key, "name"@);
            lemma_tag_value(ab, b.id@, b.name, extras, "gatewayDirection"@);
            lemma_written_concat(opt_attribute("calledElement"@, s.called_element), opt_attribute("businessKey"@, s.business_key), "gatewayDirection"@);
            lemma_written_opt("calledElement"@, s.called_element, "gatewayDirection"@);
            lemma_written_opt("businessKey"@, s.business_key, "gatewayDirection"@);
            lemma_tag_value(ab, b.id@, b.name, extras, "calledElement"@);
            lemma_written_concat(opt_attribute("calledElement"@, s.called_element), opt_attribute("businessKey"@, s.business_key), "calledElement"@);
            lemma_written_opt("calledElement"@, s.called_element, "calledElement"@);
            lemma_written_opt("businessKey"@, s.business_key, "calledElement"@);
            lemma_tag_value(ab, b.id@, b.name, extras, "businessKey"@);
            lemma_written_concat(opt_attribute("calledElement"@, s.called_element), opt_attribute("businessKey"@, s.business_key), "businessKey"@);
            lemma_written_opt("calledElement"@, s.called_element, "businessKey"@);
            lemma_written_opt("businessKey"@, s.business_key, "businessKey"@);
        },
        _ => {
            assert(extras =~= Seq::<(Seq<char>, Seq<char>)>::empty());
            assert(written_attribute(extras, "id"@) is None);
            assert(written_attribute(extras, "name"@) is None);
            assert(written_attribute(extras, "gatewayDirection"@) is None);
            lemma_tag_value(ab, b.id@, b.name, extras, "id"@);
            lemma_tag_value(ab, b.id@, b.name, extras, "name"@);
            lemma_tag_value(ab, b.id@, b.name, extras, "gatewayDirection"@);
        },
    }
}

/// What the children of `e` add after its documentation.
pub open spec fn kind_children(e: ProcessElementView) -> Seq<XmlOutView> {
    match e {
        ProcessElementView::StartEvent(s) => event_definition_events(s.event_definition),
        ProcessElementView::EndEvent(s) => event_definition_events(s.event_definition),
        ProcessElementView::IntermediateCatchEvent(s) => event_definition_events(s.event_definition),
        ProcessElementView::IntermediateThrowEvent(s) => event_definition_events(s.event_definition),
        ProcessElementView::ServiceTask(s) => loop_events(s.loop_characteristics),
        ProcessElementView::UserTask(s) => loop_events(s.loop_characteristics),
        ProcessElementView::ScriptTask(s) => loop_events(s.loop_characteristics) + opt_text_element(
            "bpmn2:script"@,
            s.script,
        ),
        ProcessElementView::CallActivity(s) => associations_events(
            "bpmn2:dataInputAssociation"@,
            s.data_input_associations,
        ) + associations_events("bpmn2:dataOutputAssociation"@, s.data_output_associations),
        _ => Seq::empty(),
    }
}

/// Reading the children of `e` inside its tag gives the element as the XML
/// describes it.
#[verifier::rlimit(60)]
pub proof fn lemma_read_children(s: XmlRead, ec: Seq<XmlEventView>, e: ProcessElementView)
    requires
        s.open == Some(XmlItem::Element(bare_of(e))),
        s.depth > 0,
        s.slot is None,
        read_back_as(ec, element_children(e)),
    ensures
        read_from(s, ec) == with_open(s, xml_of(e), read_from(s, ec).into_inputs),
{
    let b = e.base();
    let x0 = bare_of(e);
    assert(element_children(e) == documentation_events(b) + kind_children(e));
    let k = lemma_read_back_split(ec, documentation_events(b), kind_children(e));
    let ed = ec.take(k);
    let ek = ec.skip(k);
    assert(ec =~= ed + ek);
    lemma_read_from_concat(s, ed, ek);
    lemma_read_documentation(s, x0, ed, b.documentation);
    let x1 = XmlElement { documentation: opt_text(b.documentation), ..x0 };
    assert(with_documentation(x0, b.documentation) == x1);
    let s2 = with_open(s, x1, s.into_inputs);
    match e {
        ProcessElementView::StartEvent(v) => {
            lemma_read_event_definition(s2, x1, ek, v.event_definition);
        },
        ProcessElementView::EndEvent(v) => {
            lemma_read_event_definition(s2, x1, ek, v.event_definition);
        },
        ProcessElementView::IntermediateCatchEvent(v) => {
            lemma_read_event_definition(s2, x1, ek, v.event_definition);
        },
        ProcessElementView::IntermediateThrowEvent(v) => {
            lemma_read_event_definition(s2, x1, ek, v.event_definition);
        },
        ProcessElementView::ServiceTask(v) => {
            lemma_read_loop(s2, x1, ek, v.loop_characteristics);
        },
        ProcessElementView::UserTask(v) => {
            lemma_read_loop(s2, x1, ek, v.loop_characteristics);
        },
        ProcessElementView::ScriptTask(v) => {
            lemma_note_tags();
            let lp = loop_events(v.loop_characteristics);
            let sp = opt_text_element("bpmn2:script"@, v.script);
            let k2 = lemma_read_back_split(ek, lp, sp);
            assert(ek =~= ek.take(k2) + ek.skip(k2));
            lemma_read_from_concat(s2, ek.take(k2), ek.skip(k2));
            lemma_read_loop(s2, x1, ek.take(k2), v.loop_characteristics);
            let x2 = XmlElement { multi: multi_xml(v.loop_characteristics), ..x1 };
            let s3 = with_open(s2, x2, s.into_inputs);
            lemma_read_opt_text(s3, x2, ek.skip(k2), "bpmn2:script"@, XmlNested::Script, TextSlot::Script, v.script);
        },
        ProcessElementView::CallActivity(v) => {
            let ip = associations_events("bpmn2:dataInputAssociation"@, v.data_input_associations);
            let op = associations_events("bpmn2:dataOutputAssociation"@, v.data_output_associations);
            let k2 = lemma_read_back_split(ek, ip, op);
            assert(ek =~= ek.take(k2) + ek.skip(k2));
            lemma_read_from_concat(s2, ek.take(k2), ek.skip(k2));
            assert(assoc_tag(true) == "bpmn2:dataInputAssociation"@);
            assert(assoc_tag(false) == "bpmn2:dataOutputAssociation"@);
            lemma_read_associations(s2, x1, ek.take(k2), true, v.data_input_associations);
            let x2 = XmlElement { inputs: x1.inputs + assocs_view(v.data_input_associations), ..x1 };
            let s3 = read_from(s2, ek.take(k2));
            assert(s3 == with_open(s2, x2, s3.into_inputs));
            lemma_read_associations(s3, x2, ek.skip(k2), false, v.data_output_associations);
            assert(x1.inputs + assocs_view(v.data_input_associations) =~= assocs_view(v.data_input_associations));
            assert(x2.outputs + assocs_view(v.data_output_associations) =~= assocs_view(v.data_output_associations));
        },
        _ => {
            assert(ek =~= Seq::<XmlEventView>::empty());
        },
    }
}

/// Reading the events that write the element `e` closes the open element
/// or flow and opens `e` as the XML describes it, with its tag closed.
pub proof fn lemma_read_element(st: XmlRead, evs: Seq<XmlEventView>, e: ProcessElementView)
    requires
        read_back_as(evs, element_events(e)),
    ensures
        read_from(st, evs) == (XmlRead {
            open: Some(XmlItem::Element(xml_of(e))),
            slot: None,
            depth: 0,
            into_inputs: read_from(st, evs).into_inputs,
            ..flush(st)
        }),
{
    lemma_element_tags();
    lemma_more_element_tags();
    let r = lemma_wrapped_parts(evs, element_tag(e), element_attributes(e), element_children(e));
    assert(element_bytes(r.0, kind_of(e)));
    lemma_element_tag_attributes(e, r.1);
    lemma_read_three(st, XmlEventView::Tag(r.0, r.1), r.2, XmlEventView::End);
    let s1 = XmlRead { open: Some(XmlItem::Element(bare_of(e))), slot: None, depth: 1, ..flush(st) };
    assert(read_event(st, XmlEventView::Tag(r.0, r.1)) == s1);
    lemma_read_children(s1, r.2, e);
}

/// Reading the events that write the flow `f` closes the open element or
/// flow and opens `f` as the XML describes it, with its tag closed.
#[verifier::rlimit(100)]
pub proof fn lemma_read_flow(st: XmlRead, evs: Seq<XmlEventView>, f: SequenceFlow)
    requires
        read_back_as(evs, flow_events(f)),
    ensures
        read_from(st, evs) == (XmlRead { open: Some(XmlItem::Flow(flow_view(f))), slot: None, depth: 0, ..flush(st) }),
{
    lemma_frame_tags();
    lemma_condition_tags();
    reveal_strlit("id");
    reveal_strlit("name");
    reveal_strlit("sourceRef");
    reveal_strlit("targetRef");
    assert("id"@.len() == 2 && "name"@.len() == 4 && "sourceRef"@.len() == 9 && "targetRef"@.len() == 9);
    assert("sourceRef"@[0] != "targetRef"@[0]);
    let one = seq![("id"@, f.id@)];
    let nm = opt_attribute("name"@, f.name);
    let p1 = seq![("sourceRef"@, f.source_ref@)];
    let p2 = seq![("targetRef"@, f.target_ref@)];
    let a = one + nm + (p1 + p2);
    assert(a =~= seq![("id"@, f.id@)] + opt_attribute("name"@, f.name) + seq![
        ("sourceRef"@, f.source_ref@),
        ("targetRef"@, f.target_ref@),
    ]);
    let c = condition_events("bpmn2:conditionExpression"@, f.condition_expression);
    let r = lemma_wrapped_parts(evs, "bpmn2:sequenceFlow"@, a, c);
    assert(flow_bytes(r.0));
    let keys = seq!["id"@, "name"@, "sourceRef"@, "targetRef"@];
    assert forall|i: int| 0 <= i < 4 implies attribute(r.1, #[trigger] keys[i]) == (if keys[i] == "id"@ {
        Some(f.id@)
    } else if keys[i] == "name"@ {
        opt_text(f.name)
    } else if keys[i] == "sourceRef"@ {
        Some(f.source_ref@)
    } else {
        Some(f.target_ref@)
    }) by {
        let key = keys[i];
        lemma_attribute_read(r.1, a, key);
        lemma_written_concat(one + nm, p1 + p2, key);
        lemma_written_concat(one, nm, key);
        lemma_written_concat(p1, p2, key);
        lemma_written_one("id"@, f.id@, key);
        lemma_written_opt("name"@, f.name, key);
        lemma_written_one("sourceRef"@, f.source_ref@, key);
        lemma_written_one("targetRef"@, f.target_ref@, key);
    }
    assert(attribute(r.1, keys[0]) == Some(f.id@));
    assert(attribute(r.1, keys[1]) == opt_text(f.name));
    assert(attribute(r.1, keys[2]) == Some(f.source_ref@));
    assert(attribute(r.1, keys[3]) == Some(f.target_ref@));
    lemma_read_three(st, XmlEventView::Tag(r.0, r.1), r.2, XmlEventView::End);
    let x0 = XmlFlow { id: f.id@, name: opt_text(f.name), source: f.source_ref@, target: f.target_ref@, condition: None };
    let s1 = XmlRead { open: Some(XmlItem::Flow(x0)), slot: None, depth: 1, ..flush(st) };
    assert(read_event(st, XmlEventView::Tag(r.0, r.1)) == s1);
    match f.condition_expression {
        Some(cc) => {
            let la = opt_attribute("language"@, cc.language);
            assert(c == wrapped("bpmn2:conditionExpression"@, la, seq![XmlOutView::Text { text: cc.body@ }]));
            let cr = lemma_wrapped_parts(r.2, "bpmn2:conditionExpression"@, la, seq![XmlOutView::Text { text: cc.body@ }]);
            assert(nested_bytes(cr.0, XmlNested::ConditionExpression));
            lemma_attribute_read(cr.1, la, "language"@);
            lemma_written_opt("language"@, cc.language, "language"@);
            lemma_read_back_one(cr.2, XmlOutView::Text { text: cc.body@ });
            lemma_read_three(s1, XmlEventView::Tag(cr.0, cr.1), cr.2, XmlEventView::End);
            let x1 = XmlFlow { condition: Some(XmlCondition { language: opt_text(cc.language), body: Seq::empty() }), ..x0 };
            let s2 = XmlRead { open: Some(XmlItem::Flow(x1)), slot: Some(TextSlot::ConditionBody), depth: 2, ..s1 };
            assert(read_event(s1, XmlEventView::Tag(cr.0, cr.1)) == s2);
            lemma_read_from_one(s2, cr.2[0]);
            assert(cr.2 =~= seq![cr.2[0]]);
        },
        None => {
            assert(r.2 =~= Seq::<XmlEventView>::empty());
        },
    }
}

/// Inserting an item whose key no item has adds it at the end.
pub proof fn lemma_upsert_new<A>(s: Seq<A>, key: spec_fn(A) -> Seq<char>, x: A)
    requires
        forall|j: int| 0 <= j < s.len() ==> key(#[trigger] s[j]) != key(x),
    ensures
        upsert(s, key, x) == s.push(x),
{
    lemma_first_match_none(s, same_key(key, key(x)));
}

/// Reading the events that write the elements `es`, with distinct IDs,
/// from a state with nothing read or open yet: the elements read are those
/// of `es`, as the XML describes them, once the last is closed.
pub proof fn lemma_read_elements(s0: XmlRead, evs: Seq<XmlEventView>, es: Seq<ProcessElementView>)
    requires
        s0.open is None,
        s0.elements.len() == 0,
        s0.depth == 0,
        s0.slot is None,
        distinct_keys(es, element_key()),
        read_back_as(evs, elements_events(es)),
    ensures
        ({
            let r = read_from(s0, evs);
            &&& r.process_id == s0.process_id
            &&& r.process_name == s0.process_name
            &&& r.is_executable == s0.is_executable
            &&& r.flows == s0.flows
            &&& r.depth == 0
            &&& r.slot is None
            &&& (r.open is None || r.open matches Some(XmlItem::Element(_)))
            &&& flush(r).elements == es.map_values(|e: ProcessElementView| xml_of(e))
        }),
    decreases es.len(),
{
    if es.len() == 0 {
        assert(evs =~= Seq::<XmlEventView>::empty());
        assert(es.map_values(|e: ProcessElementView| xml_of(e)) =~= Seq::<XmlElement>::empty());
    } else {
        let init = es.drop_last();
        assert(distinct_keys(init, element_key())) by {
            assert forall|i: int, j: int| 0 <= i < j < init.len() implies element_key()(#[trigger] init[i])
                != element_key()(#[trigger] init[j]) by {
                assert(init[i] == es[i] && init[j] == es[j]);
            }
        }
        let k = lemma_read_back_split(evs, elements_events(init), element_events(es.last()));
        assert(evs =~= evs.take(k) + evs.skip(k));
        lemma_read_from_concat(s0, evs.take(k), evs.skip(k));
        lemma_read_elements(s0, evs.take(k), init);
        let r1 = read_from(s0, evs.take(k));
        lemma_read_element(r1, evs.skip(k), es.last());
        let xs = init.map_values(|e: ProcessElementView| xml_of(e));
        assert forall|j: int| 0 <= j < xs.len() implies xml_element_key()(#[trigger] xs[j]) != xml_element_key()(
            xml_of(es.last()),
        ) by {
            assert(xs[j] == xml_of(es[j]));
            assert(element_key()(es[j]) != element_key()(es[es.len() - 1]));
            lemma_id_is_base(es[j]);
            lemma_id_is_base(es.last());
        }
        lemma_upsert_new(xs, xml_element_key(), xml_of(es.last()));
        assert(es.map_values(|e: ProcessElementView| xml_of(e)) =~= xs.push(xml_of(es.last())));
    }
}

/// An element's ID is its base's.
pub proof fn lemma_id_is_base(e: ProcessElementView)
    ensures
        e.id() == e.base().id,
{
}

/// Reading the events that write the flows `fs`, with distinct IDs, from a
/// state with no flow read yet and no tag open: the flows read are those of
/// `fs`, as the XML describes them, once the last is closed; the elements
/// are those read before.
pub proof fn lemma_read_flows(s0: XmlRead, evs: Seq<XmlEventView>, fs: Seq<SequenceFlow>)
    requires
        s0.flows.len() == 0,
        s0.open is None || s0.open matches Some(XmlItem::Element(_)),
        s0.depth == 0,
        s0.slot is None,
        distinct_keys(fs, flow_key()),
        read_back_as(evs, flows_events(fs)),
    ensures
        ({
            let r = read_from(s0, evs);
            &&& r.process_id == s0.process_id
            &&& r.process_name == s0.process_name
            &&& r.is_executable == s0.is_executable
            &&& r.depth == 0
            &&& r.slot is None
            &&& flush(r).elements == flush(s0).elements
            &&& flush(r).flows == fs.map_values(|f: SequenceFlow| flow_view(f))
        }),
    decreases fs.len(),
{
    if fs.len() == 0 {
        assert(evs =~= Seq::<XmlEventView>::empty());
        assert(fs.map_values(|f: SequenceFlow| flow_view(f)) =~= Seq::<XmlFlow>::empty());
    } else {
        let init = fs.drop_last();
        assert(distinct_keys(init, flow_key())) by {
            assert forall|i: int, j: int| 0 <= i < j < init.len() implies flow_key()(#[trigger] init[i]) != flow_key()(
                #[trigger] init[j],
            ) by {
                assert(init[i] == fs[i] && init[j] == fs[j]);
            }
        }
        let k = lemma_read_back_split(evs, flows_events(init), flow_events(fs.last()));
        assert(evs =~= evs.take(k) + evs.skip(k));
        lemma_read_from_concat(s0, evs.take(k), evs.skip(k));
        lemma_read_flows(s0, evs.take(k), init);
        let r1 = read_from(s0, evs.take(k));
        lemma_read_flow(r1, evs.skip(k), fs.last());
        let xs = init.map_values(|f: SequenceFlow| flow_view(f));
        if init.len() == 0 {
            assert(r1 == s0);
        }
        assert forall|j: int| 0 <= j < xs.len() implies xml_flow_key()(#[trigger] xs[j]) != xml_flow_key()(
            flow_view(fs.last()),
        ) by {
            assert(xs[j] == flow_view(fs[j]));
            assert(flow_key()(fs[j]) != flow_key()(fs[fs.len() - 1]));
        }
        lemma_upsert_new(xs, xml_flow_key(), flow_view(fs.last()));
        assert(fs.map_values(|f: SequenceFlow| flow_view(f)) =~= xs.push(flow_view(fs.last())));
    }
}

/// Whether XML holds all of the element `e`: an event has a definition of
/// a kind XML names, a service task no input or output mapping, a user task
/// no assignment, a data input or output no set.
pub open spec fn element_in_xml(e: ProcessElementView) -> bool {
    match e {
        ProcessElementView::StartEvent(s) => !(s.event_definition matches Some(EventDefinition::Unspecified)),
        ProcessElementView::EndEvent(s) => !(s.event_definition matches Some(EventDefinition::Unspecified)),
        ProcessElementView::IntermediateCatchEvent(s) => !(s.event_definition matches Some(EventDefinition::Unspecified)),
        ProcessElementView::IntermediateThrowEvent(s) => !(s.event_definition matches Some(EventDefinition::Unspecified)),
        ProcessElementView::ServiceTask(s) => s.io_mapping == (IoMappingView {
            input_parameters: Seq::empty(),
            output_parameters: Seq::empty(),
        }),
        ProcessElementView::UserTask(s) => s.assignment is None,
        ProcessElementView::DataInput(s) => s.input_set is None,
        ProcessElementView::DataOutput(s) => s.output_set is None,
        _ => true,
    }
}

/// Whether XML holds all of the definition `d`: a process without
/// variables, elements and flows with distinct IDs, each element held
/// whole.
pub open spec fn definition_in_xml(d: ProcessDefinitionView) -> bool {
    &&& d.process_type@ == "process"@
    &&& d.variables.len() == 0
    &&& distinct_keys(d.elements, element_key())
    &&& distinct_keys(d.flows, flow_key())
    &&& forall|i: int| 0 <= i < d.elements.len() ==> element_in_xml(#[trigger] d.elements[i])
}

/// An element XML holds whole is the element its XML describes.
pub proof fn lemma_element_is(e: ProcessElementView)
    requires
        element_in_xml(e),
    ensures
        element_is(e, xml_of(e)),
{
    match e {
        ProcessElementView::CallActivity(s) => {
            lemma_assocs_are_view(s.data_input_associations);
            lemma_assocs_are_view(s.data_output_associations);
        },
        _ => {},
    }
}

/// What the events that write a definition's process tag, and the two tags
/// before it, leave: the process's ID, name and executable flag read.
pub proof fn lemma_read_head(evs: Seq<XmlEventView>, d: ProcessDefinitionView)
    requires
        read_back_as(
            evs,
            seq![
                XmlOutView::Declaration { version: "1.0"@, encoding: Some("UTF-8"@) },
                XmlOutView::Tag { name: "bpmn2:definitions"@, attributes: definitions_attributes(), empty: false },
                XmlOutView::Tag { name: "bpmn2:process"@, attributes: process_attributes(d), empty: false },
            ],
        ),
    ensures
        read_from(xml_start(), evs) == (XmlRead {
            process_id: Some(d.id@),
            process_name: opt_text(d.name),
            is_executable: d.is_executable,
            ..xml_start()
        }),
{
    lemma_frame_tags();
    reveal_strlit("id");
    reveal_strlit("name");
    reveal_strlit("isExecutable");
    reveal_strlit("true");
    reveal_strlit("false");
    assert("id"@.len() == 2 && "name"@.len() == 4 && "isExecutable"@.len() == 12);
    assert("false"@.len() == 5 && "true"@.len() == 4);
    let o1 = XmlOutView::Declaration { version: "1.0"@, encoding: Some("UTF-8"@) };
    let o2 = XmlOutView::Tag { name: "bpmn2:definitions"@, attributes: definitions_attributes(), empty: false };
    let o3 = XmlOutView::Tag { name: "bpmn2:process"@, attributes: process_attributes(d), empty: false };
    assert(seq![o1, o2, o3] =~= seq![o1] + seq![o2] + seq![o3]);
    let k2 = lemma_read_back_split(evs, seq![o1] + seq![o2], seq![o3]);
    let k1 = lemma_read_back_split(evs.take(k2), seq![o1], seq![o2]);
    let e1 = evs.take(k2).take(k1);
    let e2 = evs.take(k2).skip(k1);
    let e3 = evs.skip(k2);
    lemma_read_back_one(e1, o1);
    lemma_read_back_one(e2, o2);
    lemma_read_back_one(e3, o3);
    assert(evs =~= seq![e1[0]] + seq![e2[0]] + seq![e3[0]]);
    lemma_read_from_concat(xml_start(), seq![e1[0]] + seq![e2[0]], seq![e3[0]]);
    lemma_read_from_concat(xml_start(), seq![e1[0]], seq![e2[0]]);
    lemma_read_from_one(xml_start(), e1[0]);
    let s1 = read_event(xml_start(), e1[0]);
    assert(s1 == xml_start());
    lemma_read_from_one(s1, e2[0]);
    assert(other_bytes(e2[0]->Tag_0));
    assert(read_event(s1, e2[0]) == xml_start());
    lemma_read_from_one(xml_start(), e3[0]);
    let ab = e3[0]->Tag_1;
    assert(is_bpmn_tag(e3[0]->Tag_0, "process"@));
    let named = named_attributes(d.id@, d.name);
    let ex = seq![("isExecutable"@, bool_text(d.is_executable))];
    assert(process_attributes(d) =~= named + ex);
    lemma_attribute_read(ab, process_attributes(d), "id"@);
    lemma_attribute_read(ab, process_attributes(d), "name"@);
    lemma_attribute_read(ab, process_attributes(d), "isExecutable"@);
    lemma_written_concat(named, ex, "id"@);
    lemma_written_concat(named, ex, "name"@);
    lemma_written_concat(named, ex, "isExecutable"@);
    lemma_written_named(d.id@, d.name, "id"@);
    lemma_written_named(d.id@, d.name, "name"@);
    lemma_written_named(d.id@, d.name, "isExecutable"@);
    lemma_written_one("isExecutable"@, bool_text(d.is_executable), "id"@);
    lemma_written_one("isExecutable"@, bool_text(d.is_executable), "name"@);
    lemma_written_one("isExecutable"@, bool_text(d.is_executable), "isExecutable"@);
}

/// A definition that XML holds whole, written as XML and read back from
/// the events a reader gives for what was written (tags whose names' bytes
/// spell the names written, attribute values and texts that decode to
/// those written; empty-element tags each followed by an end tag), is read
/// as itself: its process ID, name and executable flag, and its elements
/// and flows in order.
#[verifier::rlimit(100)]
pub proof fn law_xml_read_back(d: ProcessDefinitionView, evs: Seq<XmlEventView>)
    requires
        definition_in_xml(d),
        read_back_as(evs, definition_events(d)),
    ensures
        xml_result(evs, None) matches Ok(st) && definition_is(d, st),
{
    let head = seq![
        XmlOutView::Declaration { version: "1.0"@, encoding: Some("UTF-8"@) },
        XmlOutView::Tag { name: "bpmn2:definitions"@, attributes: definitions_attributes(), empty: false },
        XmlOutView::Tag { name: "bpmn2:process"@, attributes: process_attributes(d), empty: false },
    ];
    let ee = elements_events(d.elements);
    let fe = flows_events(d.flows);
    let tail = seq![XmlOutView::End { name: "bpmn2:process"@ }, XmlOutView::End { name: "bpmn2:definitions"@ }];
    assert(definition_events(d) == head + ee + fe + tail);
    let k3 = lemma_read_back_split(evs, head + ee + fe, tail);
    let k2 = lemma_read_back_split(evs.take(k3), head + ee, fe);
    let k1 = lemma_read_back_split(evs.take(k3).take(k2), head, ee);
    let eh = evs.take(k3).take(k2).take(k1);
    let eel = evs.take(k3).take(k2).skip(k1);
    let efl = evs.take(k3).skip(k2);
    let et = evs.skip(k3);
    assert(evs =~= eh + eel + efl + et);
    lemma_read_events_from(evs);
    lemma_read_from_concat(xml_start(), eh + eel + efl, et);
    lemma_read_from_concat(xml_start(), eh + eel, efl);
    lemma_read_from_concat(xml_start(), eh, eel);
    lemma_read_head(eh, d);
    let s0 = read_from(xml_start(), eh);
    lemma_read_elements(s0, eel, d.elements);
    let r1 = read_from(s0, eel);
    lemma_read_flows(r1, efl, d.flows);
    let r2 = read_from(r1, efl);
    let t1 = XmlOutView::End { name: "bpmn2:process"@ };
    let t2 = XmlOutView::End { name: "bpmn2:definitions"@ };
    assert(tail =~= seq![t1] + seq![t2]);
    let kt = lemma_read_back_split(et, seq![t1], seq![t2]);
    lemma_read_back_one(et.take(kt), t1);
    lemma_read_back_one(et.skip(kt), t2);
    assert(et =~= seq![et[0]] + seq![et[1]]);
    lemma_read_from_concat(r2, seq![et[0]], seq![et[1]]);
    lemma_read_from_one(r2, et[0]);
    lemma_read_from_one(read_event(r2, et[0]), et[1]);
    assert(read_from(r2, et) == r2);
    let st = flush(r2);
    assert forall|i: int| #![trigger d.elements[i]] 0 <= i < d.elements.len() implies element_is(d.elements[i], st.elements[i]) by {
        lemma_element_is(d.elements[i]);
    }
}

} // verus!
