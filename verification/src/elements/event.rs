//! Event activities: start, end, and intermediate catch and throw events.

use vstd::prelude::*;
use crate::activity::traits::{ActivityError, ActivityResult};
use crate::elements::{outgoing_targets, targets};
use crate::engine::context::{strings_view, ExecutionContext, ExecutionContextView, ProcessInstanceState};
use crate::json_value::{JsonData, JsonValue};
use crate::model::elements::{EndEvent, EventDefinition, IntermediateCatchEvent, IntermediateThrowEvent, StartEvent};

verus! {

/// The text of an optional reference, empty when there is none.
pub open spec fn ref_text(r: Option<String>) -> Seq<char> {
    match r {
        Some(s) => s@,
        None => Seq::empty(),
    }
}

/// The JSON value that records a reference: its text, or null.
pub open spec fn ref_data(r: Option<String>) -> JsonData {
    match r {
        Some(s) => JsonData::String(s@),
        None => JsonData::Null,
    }
}

/// The variable an intermediate event with ID `id` and definition `d`
/// records: `_signal_` or `_escalation_` and its ID, holding the signal's or
/// escalation's reference; none for other definitions.
pub open spec fn event_variable(id: Seq<char>, d: Option<EventDefinition>) -> Option<(Seq<char>, JsonData)> {
    match d {
        Some(EventDefinition::Signal { signal_ref }) => Some(("_signal_"@ + id, ref_data(signal_ref))),
        Some(EventDefinition::Escalation { escalation_ref }) => Some(
            ("_escalation_"@ + id, ref_data(escalation_ref)),
        ),
        _ => None,
    }
}

/// `c` with the variable that the event records, if any.
pub open spec fn with_event_variable(c: ExecutionContextView, id: Seq<char>, d: Option<EventDefinition>) -> ExecutionContextView {
    match event_variable(id, d) {
        Some(p) => c.with_variable(p.0, p.1),
        None => c,
    }
}

/// Why an intermediate catch event with ID `id` and definition `d` waits.
pub open spec fn catch_reason(id: Seq<char>, d: Option<EventDefinition>) -> Seq<char> {
    match d {
        Some(EventDefinition::Signal { signal_ref }) => "Intermediate catch event '"@ + id
            + "' waiting for signal '"@ + ref_text(signal_ref) + "'"@,
        Some(EventDefinition::Escalation { escalation_ref }) => "Intermediate catch event '"@ + id
            + "' waiting for Escalation '"@ + ref_text(escalation_ref) + "'"@,
        _ => "Intermediate catch event '"@ + id + "' waiting for event"@,
    }
}

/// A copy of an optional reference, as JSON.
fn ref_value(r: &Option<String>) -> (v: JsonValue)
    ensures
        v@ == ref_data(*r),
{
    match r {
        Some(s) => JsonValue::String(s.clone()),
        None => JsonValue::Null,
    }
}

/// The text of an optional reference.
fn ref_str(r: &Option<String>) -> (t: &str)
    ensures
        t@ == ref_text(*r),
{
    match r {
        Some(s) => s.as_str(),
        None => {
            proof {
                reveal_strlit("");
            }
            ""
        },
    }
}

/// Records the variable of an intermediate event, if its definition has one.
fn record_event_variable(context: &mut ExecutionContext, id: &str, d: &Option<EventDefinition>)
    ensures
        final(context)@ == with_event_variable(old(context)@, id@, *d),
{
    match d {
        Some(EventDefinition::Signal { signal_ref }) => {
            context.set_variable("_signal_".to_owned().concat(id), ref_value(signal_ref));
        },
        Some(EventDefinition::Escalation { escalation_ref }) => {
            context.set_variable("_escalation_".to_owned().concat(id), ref_value(escalation_ref));
        },
        _ => {},
    }
}

/// Start Event Activity: a start event continues at once to the elements its
/// outgoing flows lead to.
#[derive(Debug)]
pub struct StartEventActivity {
    event: StartEvent,
}

impl StartEventActivity {
    /// The event this activity executes.
    pub closed spec fn event(self) -> StartEvent {
        self.event
    }

    pub fn new(event: StartEvent) -> (r: Self)
        ensures
            r.event() == event,
    {
        Self { event }
    }

    /// The event's ID.
    pub fn id(&self) -> (r: &str)
        ensures
            r@ == self.event().base.id@,
    {
        self.event.base.id.as_str()
    }

    /// The event's name, if any.
    pub fn name(&self) -> (r: Option<&str>)
        ensures
            r matches Some(n) ==> self.event().base.name matches Some(m) && m@ == n@,
            r is None ==> self.event().base.name is None,
    {
        match &self.event.base.name {
            Some(n) => Some(n.as_str()),
            None => None,
        }
    }

    /// Continues to the targets of the event's outgoing flows.
    pub fn execute(&self, context: &mut ExecutionContext) -> (r: Result<ActivityResult, ActivityError>)
        ensures
            final(context)@ == old(context)@,
            r matches Ok(ActivityResult::Continue { next_elements }) && strings_view(next_elements@) == targets(
                old(context)@.process_definition.outgoing(self.event().base.id@),
            ),
    {
        let next_elements = outgoing_targets(&context.process_definition, self.event.base.id.as_str());
        Ok(ActivityResult::Continue { next_elements })
    }
}

/// End Event Activity: an end event completes the process.
#[derive(Debug)]
pub struct EndEventActivity {
    event: EndEvent,
}

impl EndEventActivity {
    /// The event this activity executes.
    pub closed spec fn event(self) -> EndEvent {
        self.event
    }

    pub fn new(event: EndEvent) -> (r: Self)
        ensures
            r.event() == event,
    {
        Self { event }
    }

    /// The event's ID.
    pub fn id(&self) -> (r: &str)
        ensures
            r@ == self.event().base.id@,
    {
        self.event.base.id.as_str()
    }

    /// The event's name, if any.
    pub fn name(&self) -> (r: Option<&str>)
        ensures
            r matches Some(n) ==> self.event().base.name matches Some(m) && m@ == n@,
            r is None ==> self.event().base.name is None,
    {
        match &self.event.base.name {
            Some(n) => Some(n.as_str()),
            None => None,
        }
    }

    /// Marks the process completed.
    pub fn execute(&self, context: &mut ExecutionContext) -> (r: Result<ActivityResult, ActivityError>)
        ensures
            final(context)@ == (ExecutionContextView { state: ProcessInstanceState::Completed, ..old(context)@ }),
            r matches Ok(ActivityResult::Completed { output_variables: None }),
    {
        context.state = ProcessInstanceState::Completed;
        Ok(ActivityResult::Completed { output_variables: None })
    }
}

/// Intermediate Catch Event Activity: the event waits for what it catches.
#[derive(Debug)]
pub struct IntermediateCatchEventActivity {
    event: IntermediateCatchEvent,
}

impl IntermediateCatchEventActivity {
    /// The event this activity executes.
    pub closed spec fn event(self) -> IntermediateCatchEvent {
        self.event
    }

    pub fn new(event: IntermediateCatchEvent) -> (r: Self)
        ensures
            r.event() == event,
    {
        Self { event }
    }

    /// The event's ID.
    pub fn id(&self) -> (r: &str)
        ensures
            r@ == self.event().base.id@,
    {
        self.event.base.id.as_str()
    }

    /// The event's name, if any.
    pub fn name(&self) -> (r: Option<&str>)
        ensures
            r matches Some(n) ==> self.event().base.name matches Some(m) && m@ == n@,
            r is None ==> self.event().base.name is None,
    {
        match &self.event.base.name {
            Some(n) => Some(n.as_str()),
            None => None,
        }
    }

    /// Records the signal or escalation it catches, and waits for it; other
    /// events just wait.
    pub fn execute(&self, context: &mut ExecutionContext) -> (r: Result<ActivityResult, ActivityError>)
        ensures
            final(context)@ == with_event_variable(old(context)@, self.event().base.id@, self.event().event_definition),
            r matches Ok(ActivityResult::Waiting { reason }) && reason@ == catch_reason(
                self.event().base.id@,
                self.event().event_definition,
            ),
    {
        let id = self.event.base.id.as_str();
        record_event_variable(context, id, &self.event.event_definition);
        let reason = match &self.event.event_definition {
            Some(EventDefinition::Signal { signal_ref }) => "Intermediate catch event '".to_owned().concat(id).concat(
                "' waiting for signal '",
            ).concat(ref_str(signal_ref)).concat("'"),
            Some(EventDefinition::Escalation { escalation_ref }) => "Intermediate catch event '".to_owned().concat(
                id,
            ).concat("' waiting for Escalation '").concat(ref_str(escalation_ref)).concat("'"),
            _ => "Intermediate catch event '".to_owned().concat(id).concat("' waiting for event"),
        };
        Ok(ActivityResult::Waiting { reason })
    }
}

/// Intermediate Throw Event Activity: the event is thrown and execution
/// continues at once to the elements its outgoing flows lead to.
#[derive(Debug)]
pub struct IntermediateThrowEventActivity {
    event: IntermediateThrowEvent,
}

impl IntermediateThrowEventActivity {
    /// The event this activity executes.
    pub closed spec fn event(self) -> IntermediateThrowEvent {
        self.event
    }

    pub fn new(event: IntermediateThrowEvent) -> (r: Self)
        ensures
            r.event() == event,
    {
        Self { event }
    }

    /// The event's ID.
    pub fn id(&self) -> (r: &str)
        ensures
            r@ == self.event().base.id@,
    {
        self.event.base.id.as_str()
    }

    /// The event's name, if any.
    pub fn name(&self) -> (r: Option<&str>)
        ensures
            r matches Some(n) ==> self.event().base.name matches Some(m) && m@ == n@,
            r is None ==> self.event().base.name is None,
    {
        match &self.event.base.name {
            Some(n) => Some(n.as_str()),
            None => None,
        }
    }

    /// Records the signal or escalation it throws, and continues to the
    /// targets of the event's outgoing flows.
    pub fn execute(&self, context: &mut ExecutionContext) -> (r: Result<ActivityResult, ActivityError>)
        ensures
            final(context)@ == with_event_variable(old(context)@, self.event().base.id@, self.event().event_definition),
            r matches Ok(ActivityResult::Continue { next_elements }) && strings_view(next_elements@) == targets(
                old(context)@.process_definition.outgoing(self.event().base.id@),
            ),
    {
        let id = self.event.base.id.as_str();
        record_event_variable(context, id, &self.event.event_definition);
        let next_elements = outgoing_targets(&context.process_definition, id);
        Ok(ActivityResult::Continue { next_elements })
    }
}

} // verus!
