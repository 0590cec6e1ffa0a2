//! The decisions of the execution loop.
//!
//! A process runs in rounds. Execution begins at the start events; each
//! round takes the elements to execute, and for each one looks it up, has its
//! activity executed, records the step and decides from the activity's
//! result where execution goes on. Making activities and executing them is
//! the caller's part; the decisions are here.

use vstd::prelude::*;
use crate::activity::traits::{activity_error_text, ActivityError, ActivityResult};
use crate::elements::{outgoing_targets, targets};
use crate::engine::context::{
    law_token_arrival, strings_view, ExecutionContext, ExecutionContextView, ExecutionStep, ExecutionStepResult, ProcessInstanceState,
};
use crate::json_value::JsonValue;
use crate::lists::{lemma_filter_push, lemma_map_push, lemma_take_next};
use crate::model::elements::{leaves, ProcessDefinition, ProcessDefinitionView, ProcessElement, ProcessElementView, SequenceFlow};

verus! {

/// Engine Error
#[derive(Debug)]
pub enum EngineError {
    NoStartEvent,
    ElementNotFound(String),
    ActivityExecutionError(ActivityError),
    ExecutionFailed(String),
}

/// The text describing an engine error.
pub open spec fn engine_error_text(e: EngineError) -> Seq<char> {
    match e {
        EngineError::NoStartEvent => "No start event found in process"@,
        EngineError::ElementNotFound(m) => "Element not found: "@ + m@,
        EngineError::ActivityExecutionError(a) => "Activity execution error: "@ + activity_error_text(a),
        EngineError::ExecutionFailed(m) => "Process execution failed: "@ + m@,
    }
}

impl EngineError {
    /// The text describing this error.
    pub fn message(&self) -> (r: String)
        ensures
            r@ == engine_error_text(*self),
    {
        match self {
            EngineError::NoStartEvent => "No start event found in process".to_owned(),
            EngineError::ElementNotFound(m) => "Element not found: ".to_owned().concat(m.as_str()),
            EngineError::ActivityExecutionError(a) => "Activity execution error: ".to_owned().concat(
                a.message().as_str(),
            ),
            EngineError::ExecutionFailed(m) => "Process execution failed: ".to_owned().concat(m.as_str()),
        }
    }
}

impl From<ActivityError> for EngineError {
    fn from(e: ActivityError) -> (r: Self) {
        EngineError::ActivityExecutionError(e)
    }
}

impl vstd::std_specs::convert::FromSpecImpl<ActivityError> for EngineError {
    open spec fn obeys_from_spec() -> bool {
        true
    }

    open spec fn from_spec(e: ActivityError) -> Self {
        EngineError::ActivityExecutionError(e)
    }
}

/// Engine Builder
#[derive(Debug)]
pub struct EngineBuilder {}

impl EngineBuilder {
    /// Create a new builder
    pub fn new() -> (r: Self) {
        EngineBuilder {}
    }
}

impl Default for EngineBuilder {
    fn default() -> (r: Self) {
        EngineBuilder {}
    }
}

/// Where execution goes after an activity's result has been recorded.
#[derive(Debug, Clone, Copy, PartialEq, Eq, Structural)]
pub enum StepControl {
    /// Go on with the next element of the round.
    Proceed,
    /// Leave the round: the activity waits.
    EndRound,
    /// The process has completed.
    Finish,
}

/// Whether an element is a start event.
pub open spec fn is_start_event() -> spec_fn(ProcessElementView) -> bool {
    |e: ProcessElementView| e is StartEvent
}

/// The IDs of the start events among `elements`, in order.
pub open spec fn start_events(elements: Seq<ProcessElementView>) -> Seq<Seq<char>> {
    elements.filter(is_start_event()).map_values(|e: ProcessElementView| e.id()@)
}

/// The IDs of the definition's start events, in order.
pub fn start_event_ids(definition: &ProcessDefinition) -> (r: Vec<String>)
    ensures
        strings_view(r@) == start_events(definition@.elements),
{
    let ghost es = definition@.elements;
    let mut r: Vec<String> = Vec::new();
    let ghost mut found: Seq<ProcessElementView> = Seq::empty();
    proof {
        assert(es.take(0).filter(is_start_event()) =~= Seq::<ProcessElementView>::empty()) by {
            reveal(Seq::filter);
        }
        assert(strings_view(r@) =~= found.map_values(|e: ProcessElementView| e.id()@));
    }
    for i in 0..definition.elements.len()
        invariant
            es == definition@.elements,
            found == es.take(i as int).filter(is_start_event()),
            strings_view(r@) == found.map_values(|e: ProcessElementView| e.id()@),
    {
        proof {
            lemma_take_next(es, i as int);
            lemma_filter_push(es.take(i as int), is_start_event(), es[i as int]);
            assert(es[i as int] == definition.elements@[i as int]@);
        }
        match &definition.elements[i] {
            ProcessElement::StartEvent(_) => {
                let ghost before = r@;
                let id = definition.elements[i].id().to_owned();
                r.push(id);
                proof {
                    lemma_map_push(before, id, |x: String| x@);
                    lemma_map_push(found, es[i as int], |e: ProcessElementView| e.id()@);
                    found = found.push(es[i as int]);
                }
            },
            _ => {},
        }
    }
    proof {
        assert(es.take(es.len() as int) =~= es);
    }
    r
}

/// Begins execution at the definition's start events; fails when it has
/// none.
pub fn begin_execution(context: &mut ExecutionContext) -> (r: Result<(), EngineError>)
    ensures
        start_events(old(context)@.process_definition.elements).len() == 0 ==> (r matches Err(
            EngineError::NoStartEvent,
        ) && final(context)@ == old(context)@),
        start_events(old(context)@.process_definition.elements).len() > 0 ==> (r is Ok && final(context)@ == (
        ExecutionContextView {
            current_elements: start_events(old(context)@.process_definition.elements),
            ..old(context)@
        })),
{
    let starts = start_event_ids(&context.process_definition);
    proof {
        assert(strings_view(starts@).len() == starts@.len());
    }
    if starts.len() == 0 {
        return Err(EngineError::NoStartEvent);
    }
    context.set_current_elements(starts);
    Ok(())
}

/// Takes the elements of the next round, leaving none current; none when
/// the process is no longer active.
pub fn take_round(context: &mut ExecutionContext) -> (r: Option<Vec<String>>)
    ensures
        old(context).state != ProcessInstanceState::Active ==> (r is None && final(context)@ == old(context)@),
        old(context).state == ProcessInstanceState::Active ==> (r matches Some(v) && strings_view(v@) == old(
            context,
        )@.current_elements && final(context)@ == (ExecutionContextView {
            current_elements: Seq::empty(),
            ..old(context)@
        })),
{
    if context.state != ProcessInstanceState::Active {
        return None;
    }
    let mut taken: Vec<String> = Vec::new();
    std::mem::swap(&mut taken, &mut context.current_elements);
    proof {
        assert(strings_view(context.current_elements@) =~= Seq::<Seq<char>>::empty());
    }
    Some(taken)
}

/// The element with ID `element_id`; when the definition has none, the
/// process fails.
pub fn element_for_step(context: &mut ExecutionContext, element_id: &str) -> (r: Result<ProcessElement, EngineError>)
    ensures
        match old(context)@.process_definition.element(element_id@) {
            Some(e) => r matches Ok(x) && x@ == e && final(context)@ == old(context)@,
            None => r matches Err(EngineError::ElementNotFound(m)) && m@ == element_id@ && final(context)@ == (
            ExecutionContextView { state: ProcessInstanceState::Failed, ..old(context)@ }),
        },
{
    match context.process_definition.get_element(element_id) {
        Some(e) => Ok(e.clone()),
        None => {
            context.state = ProcessInstanceState::Failed;
            Err(EngineError::ElementNotFound(element_id.to_owned()))
        },
    }
}

/// The process fails with the error of an activity that could not be made
/// or executed.
pub fn fail_execution(context: &mut ExecutionContext, error: ActivityError) -> (r: EngineError)
    ensures
        final(context)@ == (ExecutionContextView { state: ProcessInstanceState::Failed, ..old(context)@ }),
        r == EngineError::ActivityExecutionError(error),
{
    context.state = ProcessInstanceState::Failed;
    EngineError::ActivityExecutionError(error)
}

/// How the history records an activity's result.
pub open spec fn step_result_of(result: ActivityResult) -> ExecutionStepResult {
    match result {
        ActivityResult::Waiting { reason } => ExecutionStepResult::Waiting(reason),
        _ => ExecutionStepResult::Completed,
    }
}

/// Whether one of the elements `next` is an end event of `d`.
pub open spec fn leads_to_end(d: ProcessDefinitionView, next: Seq<Seq<char>>) -> bool {
    exists|i: int| 0 <= i < next.len() && (#[trigger] d.element(next[i]) matches Some(ProcessElementView::EndEvent(_)))
}

/// Whether `id` names a parallel gateway of `d` that joins more than one
/// incoming flow.
pub open spec fn is_join(d: ProcessDefinitionView, id: Seq<char>) -> bool {
    d.element(id) matches Some(ProcessElementView::ParallelGateway(_)) && d.incoming(id).len() > 1
}

/// `c` after a token from `source` has reached each joining parallel
/// gateway among `next`.
pub open spec fn with_join_tokens(c: ExecutionContextView, source: Seq<char>, next: Seq<Seq<char>>) -> ExecutionContextView
    decreases next.len(),
{
    if next.len() == 0 {
        c
    } else {
        let before = with_join_tokens(c, source, next.drop_last());
        if is_join(c.process_definition, next.last()) {
            before.with_token(next.last(), source)
        } else {
            before
        }
    }
}

/// What follows the recorded result `result` of the activity of `element`
/// (with ID `element_id`) in context `c`: the context after it and where
/// execution goes.
pub open spec fn after_result(
    c: ExecutionContextView,
    element_id: Seq<char>,
    element: ProcessElementView,
    result: ActivityResult,
) -> (ExecutionContextView, StepControl) {
    match result {
        ActivityResult::Completed { .. } => if element is EndEvent {
            (ExecutionContextView { state: ProcessInstanceState::Completed, ..c }, StepControl::Finish)
        } else {
            (
                with_join_tokens(
                    ExecutionContextView {
                        current_elements: c.current_elements + targets(c.process_definition.outgoing(element_id)),
                        ..c
                    },
                    element_id,
                    targets(c.process_definition.outgoing(element_id)),
                ),
                StepControl::Proceed,
            )
        },
        ActivityResult::Waiting { .. } => (c, StepControl::EndRound),
        ActivityResult::Continue { next_elements } => if leads_to_end(
            c.process_definition,
            strings_view(next_elements@),
        ) {
            (ExecutionContextView { state: ProcessInstanceState::Completed, ..c }, StepControl::Finish)
        } else {
            (
                with_join_tokens(
                    ExecutionContextView { current_elements: c.current_elements + strings_view(next_elements@), ..c },
                    element_id,
                    strings_view(next_elements@),
                ),
                StepControl::Proceed,
            )
        },
    }
}

/// Whether one of the elements `next` is an end event of `definition`.
fn has_end_event(definition: &ProcessDefinition, next: &Vec<String>) -> (r: bool)
    ensures
        r == leads_to_end(definition@, strings_view(next@)),
{
    let mut i: usize = 0;
    while i < next.len()
        invariant
            i <= next.len(),
            forall|j: int|
                0 <= j < i ==> !(#[trigger] definition@.element(strings_view(next@)[j]) matches Some(
                    ProcessElementView::EndEvent(_),
                )),
        decreases next.len() - i,
    {
        proof {
            assert(strings_view(next@)[i as int] == next@[i as int]@);
        }
        match definition.get_element(next[i].as_str()) {
            Some(ProcessElement::EndEvent(_)) => {
                return true;
            },
            _ => {},
        }
        i = i + 1;
    }
    false
}

/// Whether `id` names a parallel gateway of `definition` that joins more
/// than one incoming flow.
fn joins(definition: &ProcessDefinition, id: &str) -> (r: bool)
    ensures
        r == is_join(definition@, id@),
{
    match definition.get_element(id) {
        Some(ProcessElement::ParallelGateway(_)) => {
            let incoming = definition.get_incoming_flows(id);
            proof {
                assert(incoming@.map_values(|f: &SequenceFlow| *f).len() == incoming@.len());
            }
            incoming.len() > 1
        },
        _ => false,
    }
}

/// Notes a token from `source` at each joining parallel gateway among
/// `next`.
fn note_join_tokens(context: &mut ExecutionContext, source: &String, next: &Vec<String>)
    ensures
        final(context)@ == with_join_tokens(old(context)@, source@, strings_view(next@)),
{
    let ghost c0 = context@;
    let ghost ns = strings_view(next@);
    proof {
        assert(ns.take(0) =~= Seq::<Seq<char>>::empty());
    }
    for i in 0..next.len()
        invariant
            ns == strings_view(next@),
            ns.len() == next.len(),
            context@ == with_join_tokens(c0, source@, ns.take(i as int)),
            context@.process_definition == c0.process_definition,
    {
        proof {
            assert(ns.take(i + 1).drop_last() =~= ns.take(i as int));
            assert(ns.take(i + 1).last() == next@[i as int]@);
        }
        if joins(&context.process_definition, next[i].as_str()) {
            context.add_incoming_token(next[i].clone(), source.clone());
        }
    }
    proof {
        assert(ns.take(ns.len() as int) =~= ns);
    }
}

/// Records in the history that the activity of `element` (with ID
/// `element_id`) gave `result` at `timestamp`, and decides where execution
/// goes: a completed end event, or a continuation that reaches an end
/// event, completes the process; a waiting activity ends the round;
/// otherwise the elements to execute next join the current ones.
pub fn record_activity_result(
    context: &mut ExecutionContext,
    element_id: String,
    element: &ProcessElement,
    result: ActivityResult,
    timestamp: std::time::SystemTime,
) -> (r: StepControl)
    ensures
        ({
            let recorded = ExecutionContextView {
                execution_history: old(context)@.execution_history.push(
                    ExecutionStep { element_id, timestamp, result: step_result_of(result) },
                ),
                ..old(context)@
            };
            (final(context)@, r) == after_result(recorded, element_id@, element@, result)
        }),
{
    let step_result = match &result {
        ActivityResult::Waiting { reason } => ExecutionStepResult::Waiting(reason.clone()),
        _ => ExecutionStepResult::Completed,
    };
    context.add_execution_step(ExecutionStep { element_id: element_id.clone(), timestamp, result: step_result });
    match result {
        ActivityResult::Completed { .. } => {
            let mut next = outgoing_targets(&context.process_definition, element_id.as_str());
            match element {
                ProcessElement::EndEvent(_) => {
                    context.state = ProcessInstanceState::Completed;
                    StepControl::Finish
                },
                _ => {
                    let ghost before = context.current_elements@;
                    let ghost added = next@;
                    let targets_of = next.clone();
                    context.current_elements.append(&mut next);
                    proof {
                        assert(strings_view(context.current_elements@) =~= strings_view(before) + strings_view(added));
                    }
                    note_join_tokens(context, &element_id, &targets_of);
                    StepControl::Proceed
                },
            }
        },
        ActivityResult::Waiting { .. } => StepControl::EndRound,
        ActivityResult::Continue { next_elements } => {
            if has_end_event(&context.process_definition, &next_elements) {
                context.state = ProcessInstanceState::Completed;
                StepControl::Finish
            } else {
                let mut next = next_elements.clone();
                let ghost before = context.current_elements@;
                let ghost added = next@;
                context.current_elements.append(&mut next);
                proof {
                    assert(strings_view(context.current_elements@) =~= strings_view(before) + strings_view(added));
                }
                note_join_tokens(context, &element_id, &next_elements);
                StepControl::Proceed
            }
        },
    }
}

/// Whether another round follows: some element is current.
pub fn round_continues(context: &ExecutionContext) -> (r: bool)
    ensures
        r == (context@.current_elements.len() > 0),
{
    context.current_elements.len() > 0
}

/// Noting join tokens leaves the current elements as they are.
pub proof fn lemma_join_tokens_keep_current(c: ExecutionContextView, source: Seq<char>, next: Seq<Seq<char>>)
    ensures
        with_join_tokens(c, source, next).current_elements == c.current_elements,
        with_join_tokens(c, source, next).execution_history == c.execution_history,
        with_join_tokens(c, source, next).state == c.state,
        with_join_tokens(c, source, next).process_definition == c.process_definition,
    decreases next.len(),
{
    if next.len() > 0 {
        lemma_join_tokens_keep_current(c, source, next.drop_last());
    }
}

/// When an element other than an end event completes, execution proceeds
/// along every flow that leaves it: the current elements grow by the
/// targets of its outgoing flows, each once and in the order the definition
/// holds the flows, so that every flow from the element has its target
/// among the current elements; the history and the state are unchanged.
pub proof fn law_completion_follows_every_flow(
    c: ExecutionContextView,
    element_id: Seq<char>,
    element: ProcessElementView,
    output_variables: Option<Vec<(String, JsonValue)>>,
)
    requires
        !(element is EndEvent),
    ensures
        ({
            let (n, control) = after_result(c, element_id, element, ActivityResult::Completed { output_variables });
            let from = c.process_definition.flows.filter(|f: SequenceFlow| f.source_ref@ == element_id);
            &&& control == StepControl::Proceed
            &&& n.current_elements.len() == c.current_elements.len() + from.len()
            &&& n.current_elements.subrange(0, c.current_elements.len() as int) == c.current_elements
            &&& forall|m: int|
                0 <= m < from.len() ==> n.current_elements[c.current_elements.len() + m] == (#[trigger] from[m]).target_ref@
            &&& forall|k: int|
                0 <= k < c.process_definition.flows.len() && (#[trigger] c.process_definition.flows[k]).source_ref@
                    == element_id ==> n.current_elements.contains(c.process_definition.flows[k].target_ref@)
            &&& n.execution_history == c.execution_history
            &&& n.state == c.state
        }),
{
    let flows = c.process_definition.flows;
    let from = flows.filter(|f: SequenceFlow| f.source_ref@ == element_id);
    assert(c.process_definition.outgoing(element_id) == from) by {
        assert(leaves(element_id) == (|f: SequenceFlow| f.source_ref@ == element_id));
    }
    let t = targets(from);
    let grown = ExecutionContextView { current_elements: c.current_elements + t, ..c };
    lemma_join_tokens_keep_current(grown, element_id, t);
    let n = with_join_tokens(grown, element_id, t);
    assert(n.current_elements.subrange(0, c.current_elements.len() as int) =~= c.current_elements);
    assert forall|k: int|
        0 <= k < flows.len() && (#[trigger] flows[k]).source_ref@ == element_id implies n.current_elements.contains(
        flows[k].target_ref@,
    ) by {
        flows.lemma_filter_contains(|f: SequenceFlow| f.source_ref@ == element_id, k);
        let m = choose|m: int| 0 <= m < from.len() && from[m] == flows[k];
        assert(n.current_elements[c.current_elements.len() + m] == flows[k].target_ref@);
    }
}

/// What each other result of an activity does: a waiting activity ends the
/// round and changes nothing; a completed end event completes the process
/// and finishes, leaving the current elements as they are; a continuation
/// to elements of which one is an end event does the same; a continuation
/// to elements none of which is an end event adds them, in order, to the
/// current elements and proceeds.
pub proof fn law_result_outcomes(
    c: ExecutionContextView,
    element_id: Seq<char>,
    element: ProcessElementView,
    result: ActivityResult,
)
    ensures
        result is Waiting ==> after_result(c, element_id, element, result) == (c, StepControl::EndRound),
        (result is Completed && element is EndEvent) ==> after_result(c, element_id, element, result) == (
        ExecutionContextView { state: ProcessInstanceState::Completed, ..c }, StepControl::Finish),
        result matches ActivityResult::Continue { next_elements } ==> ((exists|i: int|
            0 <= i < next_elements.len() && (#[trigger] c.process_definition.element(next_elements@[i]@)) matches Some(
                ProcessElementView::EndEvent(_),
            )) ==> after_result(c, element_id, element, result) == (
        ExecutionContextView { state: ProcessInstanceState::Completed, ..c }, StepControl::Finish)),
        result matches ActivityResult::Continue { next_elements } ==> (!(exists|i: int|
            0 <= i < next_elements.len() && (#[trigger] c.process_definition.element(next_elements@[i]@)) matches Some(
                ProcessElementView::EndEvent(_),
            )) ==> after_result(c, element_id, element, result).1 == StepControl::Proceed
            && after_result(c, element_id, element, result).0.current_elements == c.current_elements
            + next_elements@.map_values(|x: String| x@) && after_result(c, element_id, element, result).0.state
            == c.state),
{
    match result {
        ActivityResult::Continue { next_elements } => {
            let ns = strings_view(next_elements@);
            if exists|i: int|
                0 <= i < next_elements.len() && (#[trigger] c.process_definition.element(next_elements@[i]@)) matches Some(
                    ProcessElementView::EndEvent(_),
                ) {
                let i = choose|i: int|
                    0 <= i < next_elements.len() && (#[trigger] c.process_definition.element(next_elements@[i]@)) matches Some(
                        ProcessElementView::EndEvent(_),
                    );
                assert(ns[i] == next_elements@[i]@);
                assert(leads_to_end(c.process_definition, ns));
            } else {
                assert(!leads_to_end(c.process_definition, ns)) by {
                    if leads_to_end(c.process_definition, ns) {
                        let i = choose|i: int|
                            0 <= i < ns.len() && (#[trigger] c.process_definition.element(ns[i])) matches Some(
                                ProcessElementView::EndEvent(_),
                            );
                        assert(ns[i] == next_elements@[i]@);
                    }
                }
                let grown = ExecutionContextView { current_elements: c.current_elements + ns, ..c };
                lemma_join_tokens_keep_current(grown, element_id, ns);
            }
        },
        _ => {},
    }
}

/// Noting join tokens: each element reached that is a joining parallel
/// gateway has a token from the source among its arrived ones; every other
/// gateway's tokens are as they were.
pub proof fn law_join_tokens_noted(c: ExecutionContextView, source: Seq<char>, next: Seq<Seq<char>>)
    ensures
        forall|i: int|
            0 <= i < next.len() && is_join(c.process_definition, #[trigger] next[i]) ==> with_join_tokens(
                c,
                source,
                next,
            ).tokens(next[i]).contains(source),
        forall|g: Seq<char>| !next.contains(g) ==> #[trigger] with_join_tokens(c, source, next).tokens(g) == c.tokens(g),
    decreases next.len(),
{
    if next.len() > 0 {
        let init = next.drop_last();
        let last = next.last();
        law_join_tokens_noted(c, source, init);
        lemma_join_tokens_keep_current(c, source, init);
        let before = with_join_tokens(c, source, init);
        assert forall|i: int|
            0 <= i < next.len() && is_join(c.process_definition, #[trigger] next[i]) implies with_join_tokens(
            c,
            source,
            next,
        ).tokens(next[i]).contains(source) by {
            if is_join(c.process_definition, last) {
                law_token_arrival(before, last, source, next[i]);
                if next[i] == last {
                    assert(before.with_token(last, source).tokens(last).to_set().contains(source));
                } else {
                    assert(i < init.len());
                    assert(init[i] == next[i]);
                }
            } else {
                assert(i < init.len());
                assert(init[i] == next[i]);
            }
        }
        assert forall|g: Seq<char>| !next.contains(g) implies #[trigger] with_join_tokens(c, source, next).tokens(g)
            == c.tokens(g) by {
            assert(g != last) by {
                assert(next[next.len() - 1] == last);
            }
            assert(!init.contains(g)) by {
                if init.contains(g) {
                    let k = choose|k: int| 0 <= k < init.len() && init[k] == g;
                    assert(next[k] == g);
                }
            }
            if is_join(c.process_definition, last) {
                law_token_arrival(before, last, source, g);
            }
        }
    }
}

} // verus!
