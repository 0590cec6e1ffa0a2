//! Gateway activities: exclusive, parallel and inclusive gateways.
//!
//! An exclusive or inclusive gateway chooses among its outgoing flows by the
//! conditions on them. Choosing takes two steps: `conditions` says what each
//! condition comes to against the process variables, and `execute` takes the
//! verdicts on them (resolved where a condition compares numbers) and
//! chooses.

use vstd::prelude::*;
use crate::activity::traits::{ActivityError, ActivityResult};
use crate::elements::{outgoing_targets, targets};
use crate::engine::context::{strings_view, ExecutionContext};
use crate::engine::evaluator::{condition_outcome, evaluate_condition, ConditionOutcome, OutcomeView};
use crate::json_value::{JsonData, JsonValue};
use crate::lists::{first_match, lemma_first_match, lemma_filter_push, lemma_first_match_at, lemma_first_match_none, lemma_map_push, lemma_take_next};
use crate::model::elements::{ExclusiveGateway, InclusiveGateway, ParallelGateway, SequenceFlow};
use crate::text::str_eq;

verus! {

/// Whether `f` is the default flow `default_flow` of its gateway.
pub open spec fn is_default_flow(f: SequenceFlow, default_flow: Option<String>) -> bool {
    default_flow matches Some(d) && f.id@ == d@
}

/// Whether `f` carries a condition.
pub open spec fn has_condition(f: SequenceFlow) -> bool {
    f.condition_expression is Some
}

/// What the condition on flow `f` comes to against the variables `vars`:
/// nothing for the default flow or a flow without a condition.
pub open spec fn flow_outcome(f: SequenceFlow, default_flow: Option<String>, vars: JsonData) -> Option<OutcomeView> {
    if is_default_flow(f, default_flow) {
        None
    } else {
        match f.condition_expression {
            Some(c) => Some(condition_outcome(c.body@, vars)),
            None => None,
        }
    }
}

/// The content of an optional condition outcome.
pub open spec fn outcome_view(o: Option<ConditionOutcome>) -> Option<OutcomeView> {
    match o {
        Some(x) => Some(x@),
        None => None,
    }
}

/// Whether the verdicts `verdicts` on the conditions of `flows` agree with
/// each condition that comes to a verdict outright against `vars`.
pub open spec fn verdicts_agree(
    flows: Seq<SequenceFlow>,
    default_flow: Option<String>,
    vars: JsonData,
    verdicts: Seq<bool>,
) -> bool {
    forall|i: int|
        #![trigger verdicts[i]]
        0 <= i < flows.len() && i < verdicts.len() ==> match flow_outcome(flows[i], default_flow, vars) {
            Some(OutcomeView::Decided(b)) => verdicts[i] == b,
            _ => true,
        }
}

/// The flows `flows`, each with the verdict on its condition.
pub open spec fn with_verdicts(flows: Seq<SequenceFlow>, verdicts: Seq<bool>) -> Seq<(SequenceFlow, bool)> {
    Seq::new(flows.len(), |i: int| (flows[i], verdicts[i]))
}

/// Whether a flow with a verdict fires: it is not the default flow, and its
/// condition holds.
pub open spec fn fires(default_flow: Option<String>) -> spec_fn((SequenceFlow, bool)) -> bool {
    |p: (SequenceFlow, bool)| !is_default_flow(p.0, default_flow) && has_condition(p.0) && p.1
}

/// Whether a flow is the default flow.
pub open spec fn default_of(default_flow: Option<String>) -> spec_fn(SequenceFlow) -> bool {
    |f: SequenceFlow| is_default_flow(f, default_flow)
}

/// Whether a flow has no condition.
pub open spec fn unconditional() -> spec_fn(SequenceFlow) -> bool {
    |f: SequenceFlow| !has_condition(f)
}

/// The flow an exclusive gateway takes: the first whose condition holds;
/// else the default flow; else the first without a condition; else the
/// first flow; none when it has no outgoing flow.
pub open spec fn exclusive_choice(
    flows: Seq<SequenceFlow>,
    default_flow: Option<String>,
    verdicts: Seq<bool>,
) -> Option<SequenceFlow> {
    match first_match(with_verdicts(flows, verdicts), fires(default_flow)) {
        Some(i) => Some(flows[i]),
        None => match first_match(flows, default_of(default_flow)) {
            Some(i) => Some(flows[i]),
            None => match first_match(flows, unconditional()) {
                Some(i) => Some(flows[i]),
                None => if flows.len() > 0 {
                    Some(flows[0])
                } else {
                    None
                },
            },
        },
    }
}

/// Whether an inclusive gateway follows a flow, given the verdict on its
/// condition: the flow is not the default one, and either has no condition
/// or one that holds.
pub open spec fn taken(default_flow: Option<String>) -> spec_fn((SequenceFlow, bool)) -> bool {
    |p: (SequenceFlow, bool)| !is_default_flow(p.0, default_flow) && (!has_condition(p.0) || p.1)
}

/// The flows an inclusive gateway takes: every flow it takes, in order;
/// when there is none, the default flow.
pub open spec fn inclusive_choice(
    flows: Seq<SequenceFlow>,
    default_flow: Option<String>,
    verdicts: Seq<bool>,
) -> Seq<SequenceFlow> {
    let chosen = with_verdicts(flows, verdicts).filter(taken(default_flow)).map_values(
        |p: (SequenceFlow, bool)| p.0,
    );
    if chosen.len() > 0 {
        chosen
    } else {
        match first_match(flows, default_of(default_flow)) {
            Some(i) => seq![flows[i]],
            None => Seq::empty(),
        }
    }
}

/// Whether `f` is the default flow `default_flow`.
fn is_default(f: &SequenceFlow, default_flow: &Option<String>) -> (r: bool)
    ensures
        r == is_default_flow(*f, *default_flow),
{
    match default_flow {
        Some(d) => str_eq(f.id.as_str(), d.as_str()),
        None => false,
    }
}

/// What the condition on each flow of `flows` comes to against `vars`.
fn flow_conditions(flows: &Vec<&SequenceFlow>, default_flow: &Option<String>, vars: &JsonValue) -> (r: Vec<
    Option<ConditionOutcome>,
>)
    ensures
        r.len() == flows.len(),
        forall|i: int|
            0 <= i < flows.len() ==> outcome_view(#[trigger] r@[i]) == flow_outcome(*flows@[i], *default_flow, vars@),
{
    let mut r: Vec<Option<ConditionOutcome>> = Vec::new();
    for i in 0..flows.len()
        invariant
            r.len() == i,
            forall|j: int|
                0 <= j < i ==> outcome_view(#[trigger] r@[j]) == flow_outcome(*flows@[j], *default_flow, vars@),
    {
        let f = flows[i];
        if is_default(f, default_flow) {
            r.push(None);
        } else {
            match &f.condition_expression {
                Some(c) => {
                    r.push(Some(evaluate_condition(c, vars)));
                },
                None => {
                    r.push(None);
                },
            }
        }
    }
    r
}

/// Exclusive Gateway Activity: takes exactly one outgoing flow.
#[derive(Debug)]
pub struct ExclusiveGatewayActivity {
    gateway: ExclusiveGateway,
}

impl ExclusiveGatewayActivity {
    /// The gateway this activity executes.
    pub closed spec fn gateway(self) -> ExclusiveGateway {
        self.gateway
    }

    pub fn new(gateway: ExclusiveGateway) -> (r: Self)
        ensures
            r.gateway() == gateway,
    {
        Self { gateway }
    }

    /// The gateway's ID.
    pub fn id(&self) -> (r: &str)
        ensures
            r@ == self.gateway().base.id@,
    {
        self.gateway.base.id.as_str()
    }

    /// The gateway's name, if any.
    pub fn name(&self) -> (r: Option<&str>)
        ensures
            r matches Some(n) ==> self.gateway().base.name matches Some(m) && m@ == n@,
            r is None ==> self.gateway().base.name is None,
    {
        match &self.gateway.base.name {
            Some(n) => Some(n.as_str()),
            None => None,
        }
    }

    /// What the condition on each outgoing flow comes to against the process
    /// variables, in the order of the flows.
    pub fn conditions(&self, context: &ExecutionContext) -> (r: Vec<Option<ConditionOutcome>>)
        ensures
            r.len() == context@.process_definition.outgoing(self.gateway().base.id@).len(),
            forall|i: int|
                0 <= i < r.len() ==> outcome_view(#[trigger] r@[i]) == flow_outcome(
                    context@.process_definition.outgoing(self.gateway().base.id@)[i],
                    self.gateway().default_flow,
                    JsonData::Object(context@.variables),
                ),
    {
        let flows = context.process_definition.get_outgoing_flows(self.gateway.base.id.as_str());
        let vars = context.variables_json();
        flow_conditions(&flows, &self.gateway.default_flow, &vars)
    }

    /// Takes the flow that `exclusive_choice` gives for the verdicts on the
    /// conditions (one per outgoing flow, in order, agreeing with each
    /// condition that `conditions` finds decided).
    pub fn execute(&self, context: &mut ExecutionContext, verdicts: &Vec<bool>) -> (r: Result<
        ActivityResult,
        ActivityError,
    >)
        requires
            verdicts.len() == old(context)@.process_definition.outgoing(self.gateway().base.id@).len(),
            verdicts_agree(
                old(context)@.process_definition.outgoing(self.gateway().base.id@),
                self.gateway().default_flow,
                JsonData::Object(old(context)@.variables),
                verdicts@,
            ),
        ensures
            final(context)@ == old(context)@,
            match exclusive_choice(
                old(context)@.process_definition.outgoing(self.gateway().base.id@),
                self.gateway().default_flow,
                verdicts@,
            ) {
                Some(f) => r matches Ok(ActivityResult::Continue { next_elements }) && strings_view(
                    next_elements@,
                ) == seq![f.target_ref@],
                None => r matches Err(ActivityError::ExecutionFailed(m))
                    && m@ == "No outgoing flow selected from exclusive gateway"@,
            },
    {
        let flows = context.process_definition.get_outgoing_flows(self.gateway.base.id.as_str());
        let ghost fs = flows@.map_values(|f: &SequenceFlow| *f);
        let ghost pairs = with_verdicts(fs, verdicts@);
        let ghost d = self.gateway.default_flow;
        proof {
            assert(fs.len() == flows.len());
        }
        let mut i: usize = 0;
        while i < flows.len()
            invariant
                fs == flows@.map_values(|f: &SequenceFlow| *f),
                fs == old(context)@.process_definition.outgoing(self.gateway().base.id@),
                pairs == with_verdicts(fs, verdicts@),
                fs.len() == flows.len(),
                verdicts.len() == flows.len(),
                d == self.gateway.default_flow,
                i <= flows.len(),
                forall|j: int| 0 <= j < i ==> !fires(d)(#[trigger] pairs[j]),
            decreases flows.len() - i,
        {
            let f = flows[i];
            if !is_default(f, &self.gateway.default_flow) && f.condition_expression.is_some() && verdicts[i] {
                proof {
                    assert(pairs[i as int] == (fs[i as int], verdicts@[i as int]));
                    lemma_first_match_at(pairs, fires(d), i as int);
                }
                let next_elements = vec![f.target_ref.clone()];
                proof {
                    assert(strings_view(next_elements@) =~= seq![fs[i as int].target_ref@]);
                }
                return Ok(ActivityResult::Continue { next_elements });
            }
            proof {
                assert(pairs[i as int] == (fs[i as int], verdicts@[i as int]));
            }
            i = i + 1;
        }
        proof {
            lemma_first_match_none(pairs, fires(d));
        }
        let mut i: usize = 0;
        while i < flows.len()
            invariant
                fs == flows@.map_values(|f: &SequenceFlow| *f),
                fs == old(context)@.process_definition.outgoing(self.gateway().base.id@),
                fs.len() == flows.len(),
                d == self.gateway.default_flow,
                i <= flows.len(),
                forall|j: int| 0 <= j < i ==> !default_of(d)(#[trigger] fs[j]),
                pairs == with_verdicts(fs, verdicts@),
                first_match(pairs, fires(d)) is None,
            decreases flows.len() - i,
        {
            if is_default(flows[i], &self.gateway.default_flow) {
                proof {
                    lemma_first_match_at(fs, default_of(d), i as int);
                }
                let next_elements = vec![flows[i].target_ref.clone()];
                proof {
                    assert(strings_view(next_elements@) =~= seq![fs[i as int].target_ref@]);
                }
                return Ok(ActivityResult::Continue { next_elements });
            }
            i = i + 1;
        }
        proof {
            lemma_first_match_none(fs, default_of(d));
        }
        let mut i: usize = 0;
        while i < flows.len()
            invariant
                fs == flows@.map_values(|f: &SequenceFlow| *f),
                fs == old(context)@.process_definition.outgoing(self.gateway().base.id@),
                fs.len() == flows.len(),
                i <= flows.len(),
                forall|j: int| 0 <= j < i ==> !unconditional()(#[trigger] fs[j]),
                pairs == with_verdicts(fs, verdicts@),
                d == self.gateway.default_flow,
                first_match(pairs, fires(d)) is None,
                first_match(fs, default_of(d)) is None,
            decreases flows.len() - i,
        {
            if flows[i].condition_expression.is_none() {
                proof {
                    lemma_first_match_at(fs, unconditional(), i as int);
                }
                let next_elements = vec![flows[i].target_ref.clone()];
                proof {
                    assert(strings_view(next_elements@) =~= seq![fs[i as int].target_ref@]);
                }
                return Ok(ActivityResult::Continue { next_elements });
            }
            i = i + 1;
        }
        proof {
            lemma_first_match_none(fs, unconditional());
        }
        if flows.len() > 0 {
            let next_elements = vec![flows[0].target_ref.clone()];
            proof {
                assert(strings_view(next_elements@) =~= seq![fs[0].target_ref@]);
            }
            Ok(ActivityResult::Continue { next_elements })
        } else {
            Err(ActivityError::ExecutionFailed("No outgoing flow selected from exclusive gateway".to_owned()))
        }
    }
}

/// Parallel Gateway Activity: takes every outgoing flow; a gateway without
/// outgoing flows completes.
#[derive(Debug)]
pub struct ParallelGatewayActivity {
    gateway: ParallelGateway,
}

impl ParallelGatewayActivity {
    /// The gateway this activity executes.
    pub closed spec fn gateway(self) -> ParallelGateway {
        self.gateway
    }

    pub fn new(gateway: ParallelGateway) -> (r: Self)
        ensures
            r.gateway() == gateway,
    {
        Self { gateway }
    }

    /// The gateway's ID.
    pub fn id(&self) -> (r: &str)
        ensures
            r@ == self.gateway().base.id@,
    {
        self.gateway.base.id.as_str()
    }

    /// The gateway's name, if any.
    pub fn name(&self) -> (r: Option<&str>)
        ensures
            r matches Some(n) ==> self.gateway().base.name matches Some(m) && m@ == n@,
            r is None ==> self.gateway().base.name is None,
    {
        match &self.gateway.base.name {
            Some(n) => Some(n.as_str()),
            None => None,
        }
    }

    /// As a join (more than one incoming flow), waits until a token has
    /// arrived from as many sources as there are incoming flows, then clears
    /// its tokens and goes on; then, or straight away when it does not join,
    /// continues to the targets of all outgoing flows, or completes when
    /// there are none.
    pub fn execute(&self, context: &mut ExecutionContext) -> (r: Result<ActivityResult, ActivityError>)
        ensures
            ({
                let c = old(context)@;
                let id = self.gateway().base.id@;
                let n = c.process_definition.incoming(id).len();
                let outgoing = c.process_definition.outgoing(id);
                if n > 1 && !c.tokens_arrived(id, n) {
                    &&& final(context)@ == c
                    &&& r matches Ok(ActivityResult::Waiting { reason }) && reason@ == join_wait_reason(id)
                } else {
                    &&& final(context)@ == if n > 1 { c.without_tokens(id) } else { c }
                    &&& outgoing.len() > 0 ==> (r matches Ok(ActivityResult::Continue { next_elements })
                        && strings_view(next_elements@) == targets(outgoing))
                    &&& outgoing.len() == 0 ==> (r matches Ok(ActivityResult::Completed { output_variables: None }))
                }
            }),
    {
        let id = self.gateway.base.id.as_str();
        let incoming_flows = context.process_definition.get_incoming_flows(id);
        let incoming = incoming_flows.len();
        proof {
            lemma_refs_len(incoming_flows@);
        }
        if incoming > 1 {
            if !context.all_tokens_arrived(id, incoming) {
                let reason = "Waiting for all incoming branches at parallel gateway ".to_owned().concat(id);
                return Ok(ActivityResult::Waiting { reason });
            }
            context.clear_incoming_tokens(id);
        }
        let next_elements = outgoing_targets(&context.process_definition, id);
        proof {
            assert(strings_view(next_elements@).len() == next_elements@.len());
        }
        if next_elements.len() > 0 {
            Ok(ActivityResult::Continue { next_elements })
        } else {
            Ok(ActivityResult::Completed { output_variables: None })
        }
    }
}

/// Why a joining parallel gateway `id` waits.
pub open spec fn join_wait_reason(id: Seq<char>) -> Seq<char> {
    "Waiting for all incoming branches at parallel gateway "@ + id
}

/// The number of references is the number of flows they refer to.
proof fn lemma_refs_len(refs: Seq<&SequenceFlow>)
    ensures
        refs.map_values(|f: &SequenceFlow| *f).len() == refs.len(),
{
}

/// Inclusive Gateway Activity: takes every outgoing flow whose condition
/// holds, or the default flow.
#[derive(Debug)]
pub struct InclusiveGatewayActivity {
    gateway: InclusiveGateway,
}

impl InclusiveGatewayActivity {
    /// The gateway this activity executes.
    pub closed spec fn gateway(self) -> InclusiveGateway {
        self.gateway
    }

    pub fn new(gateway: InclusiveGateway) -> (r: Self)
        ensures
            r.gateway() == gateway,
    {
        Self { gateway }
    }

    /// The gateway's ID.
    pub fn id(&self) -> (r: &str)
        ensures
            r@ == self.gateway().base.id@,
    {
        self.gateway.base.id.as_str()
    }

    /// The gateway's name, if any.
    pub fn name(&self) -> (r: Option<&str>)
        ensures
            r matches Some(n) ==> self.gateway().base.name matches Some(m) && m@ == n@,
            r is None ==> self.gateway().base.name is None,
    {
        match &self.gateway.base.name {
            Some(n) => Some(n.as_str()),
            None => None,
        }
    }

    /// What the condition on each outgoing flow comes to against the process
    /// variables, in the order of the flows.
    pub fn conditions(&self, context: &ExecutionContext) -> (r: Vec<Option<ConditionOutcome>>)
        ensures
            r.len() == context@.process_definition.outgoing(self.gateway().base.id@).len(),
            forall|i: int|
                0 <= i < r.len() ==> outcome_view(#[trigger] r@[i]) == flow_outcome(
                    context@.process_definition.outgoing(self.gateway().base.id@)[i],
                    self.gateway().default_flow,
                    JsonData::Object(context@.variables),
                ),
    {
        let flows = context.process_definition.get_outgoing_flows(self.gateway.base.id.as_str());
        let vars = context.variables_json();
        flow_conditions(&flows, &self.gateway.default_flow, &vars)
    }

    /// Takes the flows that `inclusive_choice` gives for the verdicts on the
    /// conditions (one per outgoing flow, in order, agreeing with each
    /// condition that `conditions` finds decided); fails when it gives none.
    pub fn execute(&self, context: &mut ExecutionContext, verdicts: &Vec<bool>) -> (r: Result<
        ActivityResult,
        ActivityError,
    >)
        requires
            verdicts.len() == old(context)@.process_definition.outgoing(self.gateway().base.id@).len(),
            verdicts_agree(
                old(context)@.process_definition.outgoing(self.gateway().base.id@),
                self.gateway().default_flow,
                JsonData::Object(old(context)@.variables),
                verdicts@,
            ),
        ensures
            final(context)@ == old(context)@,
            ({
                let chosen = inclusive_choice(
                    old(context)@.process_definition.outgoing(self.gateway().base.id@),
                    self.gateway().default_flow,
                    verdicts@,
                );
                if chosen.len() > 0 {
                    r matches Ok(ActivityResult::Continue { next_elements }) && strings_view(next_elements@)
                        == targets(chosen)
                } else {
                    r matches Err(ActivityError::ExecutionFailed(m))
                        && m@ == "No outgoing flow selected from inclusive gateway"@
                }
            }),
    {
        let flows = context.process_definition.get_outgoing_flows(self.gateway.base.id.as_str());
        let ghost fs = flows@.map_values(|f: &SequenceFlow| *f);
        let ghost pairs = with_verdicts(fs, verdicts@);
        let ghost d = self.gateway.default_flow;
        let ghost fst = |p: (SequenceFlow, bool)| p.0;
        let mut selected: Vec<String> = Vec::new();
        let ghost mut chosen: Seq<SequenceFlow> = Seq::empty();
        proof {
            assert(fs.len() == flows.len());
            assert(pairs.take(0).filter(taken(d)) =~= Seq::<(SequenceFlow, bool)>::empty()) by {
                reveal(Seq::filter);
            }
            assert(chosen =~= pairs.take(0).filter(taken(d)).map_values(fst));
            assert(strings_view(selected@) =~= targets(chosen));
        }
        for i in 0..flows.len()
            invariant
                fs == flows@.map_values(|f: &SequenceFlow| *f),
                fs == old(context)@.process_definition.outgoing(self.gateway().base.id@),
                pairs == with_verdicts(fs, verdicts@),
                fs.len() == flows.len(),
                verdicts.len() == flows.len(),
                d == self.gateway.default_flow,
                fst == (|p: (SequenceFlow, bool)| p.0),
                chosen == pairs.take(i as int).filter(taken(d)).map_values(fst),
                strings_view(selected@) == targets(chosen),
        {
            proof {
                assert(pairs[i as int] == (fs[i as int], verdicts@[i as int]));
                lemma_take_next(pairs, i as int);
                lemma_filter_push(pairs.take(i as int), taken(d), pairs[i as int]);
            }
            let f = flows[i];
            if !is_default(f, &self.gateway.default_flow) && (f.condition_expression.is_none() || verdicts[i]) {
                let t = f.target_ref.clone();
                let ghost before = selected@;
                selected.push(t);
                proof {
                    lemma_map_push(pairs.take(i as int).filter(taken(d)), pairs[i as int], fst);
                    lemma_map_push(before, t, |x: String| x@);
                    lemma_map_push(chosen, fs[i as int], |f: SequenceFlow| f.target_ref@);
                    chosen = chosen.push(fs[i as int]);
                }
            }
        }
        proof {
            assert(pairs.take(flows.len() as int) =~= pairs);
            assert(strings_view(selected@).len() == selected@.len());
            assert(targets(chosen).len() == chosen.len());
            assert(chosen == pairs.filter(taken(d)).map_values(fst));
        }
        if selected.len() == 0 {
            let mut i: usize = 0;
            while i < flows.len()
                invariant
                    fs == flows@.map_values(|f: &SequenceFlow| *f),
                    fs == old(context)@.process_definition.outgoing(self.gateway().base.id@),
                fs == old(context)@.process_definition.outgoing(self.gateway().base.id@),
                    fs.len() == flows.len(),
                    d == self.gateway.default_flow,
                    i <= flows.len(),
                    forall|j: int| 0 <= j < i ==> !default_of(d)(#[trigger] fs[j]),
                    pairs == with_verdicts(fs, verdicts@),
                    pairs.filter(taken(d)).map_values(fst).len() == 0,
                    fst == (|p: (SequenceFlow, bool)| p.0),
                decreases flows.len() - i,
            {
                if is_default(flows[i], &self.gateway.default_flow) {
                    proof {
                        lemma_first_match_at(fs, default_of(d), i as int);
                    }
                    let next_elements = vec![flows[i].target_ref.clone()];
                    proof {
                        assert(strings_view(next_elements@) =~= targets(seq![fs[i as int]]));
                    }
                    return Ok(ActivityResult::Continue { next_elements });
                }
                i = i + 1;
            }
            proof {
                lemma_first_match_none(fs, default_of(d));
            }
            return Err(ActivityError::ExecutionFailed("No outgoing flow selected from inclusive gateway".to_owned()));
        }
        Ok(ActivityResult::Continue { next_elements: selected })
    }
}

/// An exclusive gateway takes a flow exactly when it has outgoing flows,
/// and the flow it takes is one of them.
pub proof fn law_exclusive_gateway_takes_one_flow(
    flows: Seq<SequenceFlow>,
    default_flow: Option<String>,
    verdicts: Seq<bool>,
)
    requires
        verdicts.len() == flows.len(),
    ensures
        exclusive_choice(flows, default_flow, verdicts) is Some <==> flows.len() > 0,
        exclusive_choice(flows, default_flow, verdicts) matches Some(f) ==> flows.contains(f),
{
    let pairs = with_verdicts(flows, verdicts);
    lemma_first_match(pairs, fires(default_flow));
    lemma_first_match(flows, default_of(default_flow));
    lemma_first_match(flows, unconditional());
    match first_match(pairs, fires(default_flow)) {
        Some(i) => {
            assert(flows[i] == flows[i]);
        },
        None => {
            if flows.len() > 0 {
                assert(flows[0] == flows[0]);
            }
        },
    }
}

/// A flow whose condition holds wins over the default flow, wherever the
/// default flow stands: when some outgoing flow other than the default one
/// carries a condition whose verdict is true, the exclusive gateway takes
/// the first such flow, which is not the default flow and whose condition
/// holds.
pub proof fn law_exclusive_condition_wins(
    flows: Seq<SequenceFlow>,
    default_flow: Option<String>,
    verdicts: Seq<bool>,
    i: int,
)
    requires
        verdicts.len() == flows.len(),
        0 <= i < flows.len(),
        !is_default_flow(flows[i], default_flow),
        flows[i].condition_expression is Some,
        verdicts[i],
    ensures
        exists|j: int|
            0 <= j <= i && exclusive_choice(flows, default_flow, verdicts) == Some(flows[j])
                && !is_default_flow(flows[j], default_flow) && flows[j].condition_expression is Some && verdicts[j]
                && forall|k: int|
                0 <= k < j ==> is_default_flow(#[trigger] flows[k], default_flow) || flows[k].condition_expression is None
                    || !verdicts[k],
{
    let pairs = with_verdicts(flows, verdicts);
    lemma_first_match(pairs, fires(default_flow));
    assert(fires(default_flow)(pairs[i]));
    match first_match(pairs, fires(default_flow)) {
        Some(j) => {
            assert(fires(default_flow)(pairs[j]));
            assert forall|k: int| 0 <= k < j implies is_default_flow(#[trigger] flows[k], default_flow)
                || flows[k].condition_expression is None || !verdicts[k] by {
                assert(!fires(default_flow)(pairs[k]));
            }
            if j > i {
                assert(!fires(default_flow)(pairs[i]));
            }
        },
        None => {},
    }
}

/// When no flow other than the default one has a condition that holds, the
/// exclusive gateway falls back: to the default flow when it is among the
/// outgoing flows; else to the first flow without a condition; else to the
/// first flow.
pub proof fn law_exclusive_falls_back(flows: Seq<SequenceFlow>, default_flow: Option<String>, verdicts: Seq<bool>)
    requires
        verdicts.len() == flows.len(),
        forall|k: int|
            0 <= k < flows.len() ==> is_default_flow(#[trigger] flows[k], default_flow)
                || flows[k].condition_expression is None || !verdicts[k],
    ensures
        (exists|i: int| 0 <= i < flows.len() && is_default_flow(#[trigger] flows[i], default_flow)) ==> exists|j: int|
            0 <= j < flows.len() && exclusive_choice(flows, default_flow, verdicts) == Some(flows[j])
                && is_default_flow(flows[j], default_flow),
        (forall|i: int| 0 <= i < flows.len() ==> !is_default_flow(#[trigger] flows[i], default_flow)) ==> (
        exclusive_choice(flows, default_flow, verdicts) == if exists|i: int|
            0 <= i < flows.len() && (#[trigger] flows[i]).condition_expression is None {
            Some(
                flows[choose|j: int|
                    0 <= j < flows.len() && flows[j].condition_expression is None && forall|k: int|
                        0 <= k < j ==> (#[trigger] flows[k]).condition_expression is Some],
            )
        } else if flows.len() > 0 {
            Some(flows[0])
        } else {
            None
        }),
{
    let pairs = with_verdicts(flows, verdicts);
    lemma_first_match(pairs, fires(default_flow));
    lemma_first_match(flows, default_of(default_flow));
    lemma_first_match(flows, unconditional());
    assert forall|k: int| 0 <= k < pairs.len() implies !fires(default_flow)(#[trigger] pairs[k]) by {
        assert(pairs[k] == (flows[k], verdicts[k]));
    }
    assert(first_match(pairs, fires(default_flow)) is None);
    if exists|i: int| 0 <= i < flows.len() && is_default_flow(#[trigger] flows[i], default_flow) {
        let i = choose|i: int| 0 <= i < flows.len() && is_default_flow(#[trigger] flows[i], default_flow);
        assert(default_of(default_flow)(flows[i]));
    }
    if forall|i: int| 0 <= i < flows.len() ==> !is_default_flow(#[trigger] flows[i], default_flow) {
        match first_match(flows, default_of(default_flow)) {
            Some(m) => {
                assert(!is_default_flow(flows[m], default_flow));
            },
            None => {},
        }
        if exists|i: int| 0 <= i < flows.len() && (#[trigger] flows[i]).condition_expression is None {
            let i = choose|i: int| 0 <= i < flows.len() && (#[trigger] flows[i]).condition_expression is None;
            assert(unconditional()(flows[i]));
            let m = first_match(flows, unconditional())->Some_0;
            let j = choose|j: int|
                0 <= j < flows.len() && flows[j].condition_expression is None && forall|k: int|
                    0 <= k < j ==> (#[trigger] flows[k]).condition_expression is Some;
            assert(forall|k: int| 0 <= k < m ==> (#[trigger] flows[k]).condition_expression is Some);
            if j < m {
                assert(!unconditional()(flows[j]));
            } else if m < j {
                assert(flows[m].condition_expression is Some);
            }
        } else {
            match first_match(flows, unconditional()) {
                Some(m) => {
                    assert(flows[m].condition_expression is None);
                },
                None => {},
            }
        }
    }
}

/// An inclusive gateway takes only outgoing flows, and takes every
/// outgoing flow that is not the default flow and has no condition or a
/// condition that holds.
pub proof fn law_inclusive_gateway_flows(flows: Seq<SequenceFlow>, default_flow: Option<String>, verdicts: Seq<bool>)
    requires
        verdicts.len() == flows.len(),
    ensures
        forall|f: SequenceFlow| #[trigger] inclusive_choice(flows, default_flow, verdicts).contains(f) ==> flows.contains(f),
        forall|i: int|
            0 <= i < flows.len() && !is_default_flow(flows[i], default_flow) && (!has_condition(flows[i])
                || verdicts[i]) ==> #[trigger] inclusive_choice(flows, default_flow, verdicts).contains(flows[i]),
{
    let pairs = with_verdicts(flows, verdicts);
    let fst = |p: (SequenceFlow, bool)| p.0;
    let kept = pairs.filter(taken(default_flow));
    let chosen = kept.map_values(fst);
    assert forall|f: SequenceFlow| #[trigger] inclusive_choice(flows, default_flow, verdicts).contains(f) implies flows.contains(f) by {
        if chosen.len() > 0 {
            let j = choose|j: int| 0 <= j < chosen.len() && chosen[j] == f;
            assert(kept.contains(kept[j]));
            pairs.lemma_filter_contains_rev(taken(default_flow), kept[j]);
            let k = choose|k: int| 0 <= k < pairs.len() && pairs[k] == kept[j];
            assert(flows[k] == f);
        } else {
            lemma_first_match(flows, default_of(default_flow));
            match first_match(flows, default_of(default_flow)) {
                Some(m) => {
                    assert(inclusive_choice(flows, default_flow, verdicts) == seq![flows[m]]);
                    assert(flows[m] == f);
                },
                None => {},
            }
        }
    }
    assert forall|i: int|
        0 <= i < flows.len() && !is_default_flow(flows[i], default_flow) && (!has_condition(flows[i])
            || verdicts[i]) implies #[trigger] inclusive_choice(flows, default_flow, verdicts).contains(flows[i]) by {
        assert(pairs[i] == (flows[i], verdicts[i]));
        pairs.lemma_filter_contains(taken(default_flow), i);
        let j = choose|j: int| 0 <= j < kept.len() && kept[j] == pairs[i];
        assert(chosen[j] == flows[i]);
    }
}

} // verus!
