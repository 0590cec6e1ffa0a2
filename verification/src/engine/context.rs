//! Execution context of a BPMN process instance: its variables, the
//! elements being executed, its history and the tokens that have reached
//! each joining gateway.

use vstd::prelude::*;
use crate::json_value::{clone_json, lemma_members_data_index, members_data, JsonData, JsonValue};
use crate::lists::{lemma_lookup_filter, lemma_upsert_lookup, lookup, first_match, lemma_first_match, lemma_first_match_at, lemma_first_match_none, lemma_filter_push, lemma_map_push, lemma_take_next, same_key, upsert};
use crate::model::elements::{distinct_keys, lemma_upsert_distinct, ProcessDefinition, ProcessDefinitionView};
use crate::text::str_eq;

verus! {

#[verifier::external_type_specification]
#[verifier::external_body]
pub struct ExSystemTime(std::time::SystemTime);

/// Process Instance State
#[derive(Debug, Clone, Copy, PartialEq, Eq, Structural)]
pub enum ProcessInstanceState {
    /// Process is active and executing
    Active,
    /// Process is completed
    Completed,
    /// Process is terminated
    Terminated,
    /// Process is suspended
    Suspended,
    /// Process execution failed
    Failed,
}

/// Gateway Direction (BPMN 2.0)
#[derive(Debug, Clone, Copy, PartialEq, Eq, Structural)]
pub enum GatewayDirection {
    /// Diverging output (1 in, N out): AND/XOR split
    Diverging,
    /// Converging input (N in, 1 out): AND join
    Converging,
    /// Both converging and diverging (join then split)
    Mixed,
    /// Direction cannot be determined
    Unknown,
}

impl Default for GatewayDirection {
    fn default() -> (r: Self)
        ensures
            r == GatewayDirection::Unknown,
    {
        GatewayDirection::Unknown
    }
}

/// The direction of a gateway with `incoming` incoming and `outgoing`
/// outgoing flows.
pub open spec fn direction_of(incoming: nat, outgoing: nat) -> GatewayDirection {
    if incoming == 1 && outgoing > 1 {
        GatewayDirection::Diverging
    } else if incoming > 1 && outgoing == 1 {
        GatewayDirection::Converging
    } else if incoming > 1 && outgoing > 1 {
        GatewayDirection::Mixed
    } else {
        GatewayDirection::Unknown
    }
}

/// Detects a gateway's direction from the flows that enter and leave it.
pub fn detect_gateway_direction(gateway_id: &str, definition: &ProcessDefinition) -> (r: GatewayDirection)
    ensures
        r == direction_of(definition@.incoming(gateway_id@).len(), definition@.outgoing(gateway_id@).len()),
{
    let incoming = definition.get_incoming_flows(gateway_id);
    let outgoing = definition.get_outgoing_flows(gateway_id);
    proof {
        assert(incoming@.map_values(|f: &crate::model::elements::SequenceFlow| *f).len() == incoming@.len());
        assert(outgoing@.map_values(|f: &crate::model::elements::SequenceFlow| *f).len() == outgoing@.len());
    }
    let n = incoming.len();
    let m = outgoing.len();
    if n == 1 && m > 1 {
        GatewayDirection::Diverging
    } else if n > 1 && m == 1 {
        GatewayDirection::Converging
    } else if n > 1 && m > 1 {
        GatewayDirection::Mixed
    } else {
        GatewayDirection::Unknown
    }
}

/// Execution Step Result
#[derive(Debug)]
pub enum ExecutionStepResult {
    /// Step completed successfully
    Completed,
    /// Step failed
    Failed(String),
    /// Step is waiting
    Waiting(String),
}

impl Clone for ExecutionStepResult {
    fn clone(&self) -> (r: Self)
        ensures
            r == *self,
    {
        match self {
            ExecutionStepResult::Completed => ExecutionStepResult::Completed,
            ExecutionStepResult::Failed(m) => ExecutionStepResult::Failed(m.clone()),
            ExecutionStepResult::Waiting(m) => ExecutionStepResult::Waiting(m.clone()),
        }
    }
}

/// Execution Step: one entry of the execution history.
#[derive(Debug)]
pub struct ExecutionStep {
    /// Element ID that was executed
    pub element_id: String,
    /// Timestamp of execution
    pub timestamp: std::time::SystemTime,
    /// Execution result
    pub result: ExecutionStepResult,
}

impl Clone for ExecutionStep {
    fn clone(&self) -> (r: Self)
        ensures
            r == *self,
    {
        ExecutionStep { element_id: self.element_id.clone(), timestamp: self.timestamp, result: self.result.clone() }
    }
}

/// The key of a variable entry: its name.
pub open spec fn variable_name() -> spec_fn((Seq<char>, JsonData)) -> Seq<char> {
    |p: (Seq<char>, JsonData)| p.0
}

/// The key of a token entry: the gateway's ID.
pub open spec fn token_gateway() -> spec_fn((Seq<char>, Seq<Seq<char>>)) -> Seq<char> {
    |p: (Seq<char>, Seq<Seq<char>>)| p.0
}

/// The sources of gateway `gateway` in the token entries `tokens`.
pub open spec fn sources_of(tokens: Seq<(Seq<char>, Seq<Seq<char>>)>, gateway: Seq<char>) -> Seq<Seq<char>> {
    match lookup(tokens, token_gateway(), gateway) {
        Some(p) => p.1,
        None => Seq::empty(),
    }
}

/// The token entries after a token from `source` reaches gateway `gateway`:
/// the gateway's sources gain `source` unless they hold it already.
pub open spec fn add_token(
    tokens: Seq<(Seq<char>, Seq<Seq<char>>)>,
    gateway: Seq<char>,
    source: Seq<char>,
) -> Seq<(Seq<char>, Seq<Seq<char>>)> {
    let sources = sources_of(tokens, gateway);
    upsert(tokens, token_gateway(), (gateway, if sources.contains(source) { sources } else { sources.push(source) }))
}

/// Whether a token entry belongs to a gateway other than `gateway`.
pub open spec fn other_gateway(gateway: Seq<char>) -> spec_fn((Seq<char>, Seq<Seq<char>>)) -> bool {
    |p: (Seq<char>, Seq<Seq<char>>)| p.0 != gateway
}

/// The content of an execution context.
pub struct ExecutionContextView {
    pub process_definition: ProcessDefinitionView,
    pub instance_id: Seq<char>,
    pub current_elements: Seq<Seq<char>>,
    pub variables: Seq<(Seq<char>, JsonData)>,
    pub execution_history: Seq<ExecutionStep>,
    pub incoming_tokens: Seq<(Seq<char>, Seq<Seq<char>>)>,
    pub state: ProcessInstanceState,
}

impl ExecutionContextView {
    /// The value of variable `name`, if it is set.
    pub open spec fn variable(self, name: Seq<char>) -> Option<JsonData> {
        match lookup(self.variables, variable_name(), name) {
            Some(p) => Some(p.1),
            None => None,
        }
    }

    /// Whether gateway `gateway` has a token entry.
    pub open spec fn has_tokens(self, gateway: Seq<char>) -> bool {
        lookup(self.incoming_tokens, token_gateway(), gateway) is Some
    }

    /// The sources whose tokens have reached gateway `gateway`.
    pub open spec fn tokens(self, gateway: Seq<char>) -> Seq<Seq<char>> {
        sources_of(self.incoming_tokens, gateway)
    }

    /// Whether `required` sources have reached gateway `gateway`.
    pub open spec fn tokens_arrived(self, gateway: Seq<char>, required: nat) -> bool {
        self.has_tokens(gateway) && self.tokens(gateway).len() >= required
    }

    /// This context with variable `name` set to `value`.
    pub open spec fn with_variable(self, name: Seq<char>, value: JsonData) -> Self {
        ExecutionContextView { variables: upsert(self.variables, variable_name(), (name, value)), ..self }
    }

    /// Whether no two variables share a name and no two token entries share
    /// a gateway, as in maps keyed by them.
    pub open spec fn keys_distinct(self) -> bool {
        distinct_keys(self.variables, variable_name()) && distinct_keys(self.incoming_tokens, token_gateway())
    }

    /// This context after a token from `source` reached gateway `gateway`.
    pub open spec fn with_token(self, gateway: Seq<char>, source: Seq<char>) -> Self {
        ExecutionContextView { incoming_tokens: add_token(self.incoming_tokens, gateway, source), ..self }
    }

    /// This context without the token entry of gateway `gateway`.
    pub open spec fn without_tokens(self, gateway: Seq<char>) -> Self {
        ExecutionContextView { incoming_tokens: self.incoming_tokens.filter(other_gateway(gateway)), ..self }
    }
}

/// The names and values of a sequence of variable entries.
pub open spec fn variables_data(s: Seq<(String, JsonValue)>) -> Seq<(Seq<char>, JsonData)> {
    s.map_values(|p: (String, JsonValue)| (p.0@, p.1@))
}

/// The texts of a sequence of strings.
pub open spec fn strings_view(s: Seq<String>) -> Seq<Seq<char>> {
    s.map_values(|x: String| x@)
}

/// The content of a sequence of token entries.
pub open spec fn tokens_data(s: Seq<(String, Vec<String>)>) -> Seq<(Seq<char>, Seq<Seq<char>>)> {
    s.map_values(|p: (String, Vec<String>)| (p.0@, strings_view(p.1@)))
}

/// Execution Context: the state of a process instance during execution.
/// Variables and token entries are keyed, the first entry with a key being
/// the one that counts.
#[derive(Debug)]
pub struct ExecutionContext {
    /// Process definition
    pub process_definition: ProcessDefinition,
    /// Process instance ID
    pub instance_id: String,
    /// Current element IDs being executed
    pub current_elements: Vec<String>,
    /// Process variables, by name
    pub variables: Vec<(String, JsonValue)>,
    /// Execution history
    pub execution_history: Vec<ExecutionStep>,
    /// Tokens of parallel gateway joins: for each gateway ID, the IDs of the
    /// source elements whose tokens have arrived
    pub incoming_tokens: Vec<(String, Vec<String>)>,
    /// Process state
    pub state: ProcessInstanceState,
}

impl View for ExecutionContext {
    type V = ExecutionContextView;

    open spec fn view(&self) -> ExecutionContextView {
        ExecutionContextView {
            process_definition: self.process_definition@,
            instance_id: self.instance_id@,
            current_elements: strings_view(self.current_elements@),
            variables: variables_data(self.variables@),
            execution_history: self.execution_history@,
            incoming_tokens: tokens_data(self.incoming_tokens@),
            state: self.state,
        }
    }
}

/// Whether `s` holds a string with the text of `x`.
fn holds_string(s: &Vec<String>, x: &str) -> (r: bool)
    ensures
        r == strings_view(s@).contains(x@),
{
    let mut i: usize = 0;
    while i < s.len()
        invariant
            i <= s.len(),
            forall|j: int| 0 <= j < i ==> s@[j]@ != x@,
        decreases s.len() - i,
    {
        if str_eq(s[i].as_str(), x) {
            proof {
                assert(strings_view(s@)[i as int] == x@);
            }
            return true;
        }
        i = i + 1;
    }
    proof {
        if strings_view(s@).contains(x@) {
            let j = choose|j: int| 0 <= j < strings_view(s@).len() && strings_view(s@)[j] == x@;
            assert(s@[j]@ == x@);
        }
    }
    false
}

/// A copy of a sequence of strings.
fn clone_strings(s: &Vec<String>) -> (r: Vec<String>)
    ensures
        r@ == s@,
{
    let mut r: Vec<String> = Vec::new();
    for i in 0..s.len()
        invariant
            r@ == s@.take(i as int),
    {
        proof {
            lemma_take_next(s@, i as int);
        }
        r.push(s[i].clone());
    }
    proof {
        assert(s@.take(s@.len() as int) =~= s@);
    }
    r
}

impl ExecutionContext {
    /// A new context for instance `instance_id` of `process_definition`:
    /// active, with no variables, no history and no tokens.
    pub fn new(process_definition: ProcessDefinition, instance_id: String) -> (r: Self)
        ensures
            r.process_definition == process_definition,
            r.instance_id == instance_id,
            r@.current_elements == Seq::<Seq<char>>::empty(),
            r@.variables == Seq::<(Seq<char>, JsonData)>::empty(),
            r@.execution_history == Seq::<ExecutionStep>::empty(),
            r@.incoming_tokens == Seq::<(Seq<char>, Seq<Seq<char>>)>::empty(),
            r.state == ProcessInstanceState::Active,
    {
        let r = Self {
            process_definition,
            instance_id,
            current_elements: Vec::new(),
            variables: Vec::new(),
            execution_history: Vec::new(),
            incoming_tokens: Vec::new(),
            state: ProcessInstanceState::Active,
        };
        proof {
            assert(r@.current_elements =~= Seq::<Seq<char>>::empty());
            assert(r@.variables =~= Seq::<(Seq<char>, JsonData)>::empty());
            assert(r@.incoming_tokens =~= Seq::<(Seq<char>, Seq<Seq<char>>)>::empty());
        }
        r
    }

    /// Sets variable `name` to `value`, in place of its earlier value.
    pub fn set_variable(&mut self, name: String, value: JsonValue)
        ensures
            final(self)@ == old(self)@.with_variable(name@, value@),
    {
        let ghost s = old(self)@.variables;
        let ghost p = same_key(variable_name(), name@);
        let mut i: usize = 0;
        while i < self.variables.len()
            invariant
                self@ == old(self)@,
                s == self@.variables,
                p == same_key(variable_name(), name@),
                i <= self.variables.len(),
                forall|j: int| 0 <= j < i ==> !p(#[trigger] s[j]),
            decreases self.variables.len() - i,
        {
            if str_eq(self.variables[i].0.as_str(), name.as_str()) {
                proof {
                    assert(s[i as int].0 == self.variables@[i as int].0@);
                    lemma_first_match_at(s, p, i as int);
                }
                self.variables.set(i, (name, value));
                proof {
                    assert(self@.variables =~= s.update(i as int, (name@, value@)));
                }
                return;
            }
            i = i + 1;
        }
        proof {
            lemma_first_match_none(s, p);
        }
        self.variables.push((name, value));
        proof {
            assert(self@.variables =~= s.push((name@, value@)));
        }
    }

    /// The value of variable `name`, if it is set.
    pub fn get_variable(&self, name: &str) -> (r: Option<&JsonValue>)
        ensures
            match r {
                Some(v) => self@.variable(name@) == Some(v@),
                None => self@.variable(name@) is None,
            },
    {
        let ghost s = self@.variables;
        let ghost p = same_key(variable_name(), name@);
        let mut i: usize = 0;
        while i < self.variables.len()
            invariant
                s == self@.variables,
                p == same_key(variable_name(), name@),
                i <= self.variables.len(),
                forall|j: int| 0 <= j < i ==> !p(#[trigger] s[j]),
            decreases self.variables.len() - i,
        {
            if str_eq(self.variables[i].0.as_str(), name) {
                proof {
                    assert(s[i as int].0 == self.variables@[i as int].0@);
                    lemma_first_match_at(s, p, i as int);
                }
                return Some(&self.variables[i].1);
            }
            i = i + 1;
        }
        proof {
            lemma_first_match_none(s, p);
        }
        None
    }

    /// The process variables as a JSON object, the context that conditions
    /// are evaluated against.
    pub fn variables_json(&self) -> (r: JsonValue)
        ensures
            r@ == JsonData::Object(self@.variables),
    {
        let mut out: Vec<(String, JsonValue)> = Vec::new();
        for i in 0..self.variables.len()
            invariant
                out.len() == i,
                forall|j: int|
                    0 <= j < i ==> (#[trigger] out@[j]).0@ == self.variables@[j].0@ && out@[j].1@
                        == self.variables@[j].1@,
        {
            let entry = (self.variables[i].0.clone(), clone_json(&self.variables[i].1));
            out.push(entry);
        }
        proof {
            lemma_members_data_index(out@);
            assert(members_data(out@) =~= self@.variables);
        }
        JsonValue::Object(out)
    }

    /// Adds a step at the end of the execution history.
    pub fn add_execution_step(&mut self, step: ExecutionStep)
        ensures
            final(self)@ == (ExecutionContextView {
                execution_history: old(self)@.execution_history.push(step),
                ..old(self)@
            }),
    {
        self.execution_history.push(step);
    }

    /// Sets the elements being executed.
    pub fn set_current_elements(&mut self, element_ids: Vec<String>)
        ensures
            final(self)@ == (ExecutionContextView { current_elements: strings_view(element_ids@), ..old(self)@ }),
    {
        self.current_elements = element_ids;
    }

    /// Clears the elements being executed.
    pub fn clear_current_elements(&mut self)
        ensures
            final(self)@ == (ExecutionContextView { current_elements: Seq::empty(), ..old(self)@ }),
    {
        self.current_elements.clear();
        proof {
            assert(self@.current_elements =~= Seq::<Seq<char>>::empty());
        }
    }

    /// Records that a token from `source_id` reached gateway `gateway_id`.
    pub fn add_incoming_token(&mut self, gateway_id: String, source_id: String)
        ensures
            final(self)@ == old(self)@.with_token(gateway_id@, source_id@),
    {
        let ghost s = old(self)@.incoming_tokens;
        let ghost p = same_key(token_gateway(), gateway_id@);
        let mut i: usize = 0;
        while i < self.incoming_tokens.len()
            invariant
                self@ == old(self)@,
                s == self@.incoming_tokens,
                p == same_key(token_gateway(), gateway_id@),
                i <= self.incoming_tokens.len(),
                forall|j: int| 0 <= j < i ==> !p(#[trigger] s[j]),
            decreases self.incoming_tokens.len() - i,
        {
            if str_eq(self.incoming_tokens[i].0.as_str(), gateway_id.as_str()) {
                proof {
                    assert(s[i as int].0 == self.incoming_tokens@[i as int].0@);
                    lemma_first_match_at(s, p, i as int);
                    assert(sources_of(s, gateway_id@) == strings_view(self.incoming_tokens@[i as int].1@));
                }
                let mut sources = clone_strings(&self.incoming_tokens[i].1);
                if !holds_string(&sources, source_id.as_str()) {
                    sources.push(source_id);
                    proof {
                        lemma_map_push(self.incoming_tokens@[i as int].1@, source_id, |x: String| x@);
                    }
                }
                let ghost entry = (gateway_id@, strings_view(sources@));
                self.incoming_tokens.set(i, (gateway_id, sources));
                proof {
                    assert(self@.incoming_tokens =~= s.update(i as int, entry));
                }
                return;
            }
            i = i + 1;
        }
        proof {
            lemma_first_match_none(s, p);
            assert(sources_of(s, gateway_id@) == Seq::<Seq<char>>::empty());
            assert(seq![source_id@] =~= Seq::<Seq<char>>::empty().push(source_id@));
        }
        let mut sources: Vec<String> = Vec::new();
        sources.push(source_id);
        proof {
            assert(strings_view(sources@) =~= seq![source_id@]);
        }
        self.incoming_tokens.push((gateway_id, sources));
        proof {
            assert(self@.incoming_tokens =~= s.push((gateway_id@, seq![source_id@])));
        }
    }

    /// The sources whose tokens have reached gateway `gateway_id`.
    pub fn get_incoming_tokens(&self, gateway_id: &str) -> (r: Vec<String>)
        ensures
            strings_view(r@) == self@.tokens(gateway_id@),
    {
        let ghost s = self@.incoming_tokens;
        let ghost p = same_key(token_gateway(), gateway_id@);
        let mut i: usize = 0;
        while i < self.incoming_tokens.len()
            invariant
                s == self@.incoming_tokens,
                p == same_key(token_gateway(), gateway_id@),
                i <= self.incoming_tokens.len(),
                forall|j: int| 0 <= j < i ==> !p(#[trigger] s[j]),
            decreases self.incoming_tokens.len() - i,
        {
            if str_eq(self.incoming_tokens[i].0.as_str(), gateway_id) {
                proof {
                    assert(s[i as int].0 == self.incoming_tokens@[i as int].0@);
                    lemma_first_match_at(s, p, i as int);
                }
                return clone_strings(&self.incoming_tokens[i].1);
            }
            i = i + 1;
        }
        proof {
            lemma_first_match_none(s, p);
        }
        let r: Vec<String> = Vec::new();
        proof {
            assert(strings_view(r@) =~= Seq::<Seq<char>>::empty());
        }
        r
    }

    /// Drops the token entry of gateway `gateway_id` (once its join is done).
    pub fn clear_incoming_tokens(&mut self, gateway_id: &str)
        ensures
            final(self)@ == old(self)@.without_tokens(gateway_id@),
    {
        let ghost s = old(self)@.incoming_tokens;
        let mut kept: Vec<(String, Vec<String>)> = Vec::new();
        let mut old_tokens: Vec<(String, Vec<String>)> = Vec::new();
        std::mem::swap(&mut old_tokens, &mut self.incoming_tokens);
        let ghost ov = old_tokens@;
        for entry in it: old_tokens
            invariant
                it.seq() == ov,
                tokens_data(ov) == s,
                tokens_data(kept@) == s.take(it.index() as int).filter(other_gateway(gateway_id@)),
        {
            let ghost idx = it.index() as int;
            let ghost before = kept@;
            proof {
                lemma_take_next(s, idx);
                lemma_filter_push(s.take(idx), other_gateway(gateway_id@), s[idx]);
                assert(s[idx] == (entry.0@, strings_view(entry.1@)));
            }
            if !str_eq(entry.0.as_str(), gateway_id) {
                let ghost e = entry;
                kept.push(entry);
                proof {
                    lemma_map_push(before, e, |p: (String, Vec<String>)| (p.0@, strings_view(p.1@)));
                }
            }
        }
        proof {
            assert(s.take(s.len() as int) =~= s);
        }
        self.incoming_tokens = kept;
    }

    /// Whether `required_count` sources have reached gateway `gateway_id`;
    /// `false` when the gateway has no token entry.
    pub fn all_tokens_arrived(&self, gateway_id: &str, required_count: usize) -> (r: bool)
        ensures
            r == self@.tokens_arrived(gateway_id@, required_count as nat),
    {
        let ghost s = self@.incoming_tokens;
        let ghost p = same_key(token_gateway(), gateway_id@);
        let mut i: usize = 0;
        while i < self.incoming_tokens.len()
            invariant
                s == self@.incoming_tokens,
                p == same_key(token_gateway(), gateway_id@),
                i <= self.incoming_tokens.len(),
                forall|j: int| 0 <= j < i ==> !p(#[trigger] s[j]),
            decreases self.incoming_tokens.len() - i,
        {
            if str_eq(self.incoming_tokens[i].0.as_str(), gateway_id) {
                proof {
                    assert(s[i as int].0 == self.incoming_tokens@[i as int].0@);
                    lemma_first_match_at(s, p, i as int);
                    assert(strings_view(self.incoming_tokens@[i as int].1@).len()
                        == self.incoming_tokens@[i as int].1@.len());
                }
                return self.incoming_tokens[i].1.len() >= required_count;
            }
            i = i + 1;
        }
        proof {
            lemma_first_match_none(s, p);
        }
        false
    }
}

/// Reading a variable after setting it gives the value set, and reading any
/// other variable gives what it gave before.
pub proof fn law_variable_read_after_write(c: ExecutionContextView, name: Seq<char>, value: JsonData, other: Seq<char>)
    ensures
        c.with_variable(name, value).variable(name) == Some(value),
        other != name ==> c.with_variable(name, value).variable(other) == c.variable(other),
{
    lemma_upsert_lookup(c.variables, variable_name(), (name, value), other);
}

/// When a token from `source` reaches gateway `gateway`, the gateway has a
/// token entry whose sources are its earlier ones with `source` added once:
/// a source counts once however often its token arrives. Every other
/// gateway's entry is unchanged.
pub proof fn law_token_arrival(c: ExecutionContextView, gateway: Seq<char>, source: Seq<char>, other: Seq<char>)
    ensures
        c.with_token(gateway, source).has_tokens(gateway),
        c.with_token(gateway, source).tokens(gateway) == (if c.tokens(gateway).contains(source) {
            c.tokens(gateway)
        } else {
            c.tokens(gateway).push(source)
        }),
        c.with_token(gateway, source).tokens(gateway).to_set() == c.tokens(gateway).to_set().insert(source),
        c.tokens(gateway).no_duplicates() ==> c.with_token(gateway, source).tokens(gateway).no_duplicates(),
        other != gateway ==> c.with_token(gateway, source).tokens(other) == c.tokens(other)
            && c.with_token(gateway, source).has_tokens(other) == c.has_tokens(other),
{
    let old_sources = c.tokens(gateway);
    let new_sources = if old_sources.contains(source) { old_sources } else { old_sources.push(source) };
    lemma_upsert_lookup(c.incoming_tokens, token_gateway(), (gateway, new_sources), other);
    let t = c.with_token(gateway, source).tokens(gateway);
    assert(t == new_sources);
    if old_sources.contains(source) {
        assert(old_sources.to_set() =~= old_sources.to_set().insert(source));
    } else {
        assert(t.to_set() =~= old_sources.to_set().insert(source)) by {
            assert forall|x: Seq<char>| t.to_set().contains(x) implies old_sources.to_set().insert(source).contains(x) by {
                let j = choose|j: int| 0 <= j < t.len() && t[j] == x;
                if j < old_sources.len() {
                    assert(old_sources[j] == x);
                }
            }
            assert forall|x: Seq<char>| old_sources.to_set().insert(source).contains(x) implies t.to_set().contains(x) by {
                if x == source {
                    assert(t[old_sources.len() as int] == x);
                } else {
                    let j = choose|j: int| 0 <= j < old_sources.len() && old_sources[j] == x;
                    assert(t[j] == x);
                }
            }
        }
        if old_sources.no_duplicates() {
            assert forall|i: int, j: int| 0 <= i < t.len() && 0 <= j < t.len() && i != j implies t[i] != t[j] by {
                if i < old_sources.len() && j < old_sources.len() {
                } else if i < old_sources.len() {
                    assert(t[i] == old_sources[i]);
                } else if j < old_sources.len() {
                    assert(t[j] == old_sources[j]);
                }
            }
        }
    }
}

/// Once a gateway's token entry is dropped, it has no sources and no
/// number of them counts as arrived; every other gateway's entry is
/// unchanged.
pub proof fn law_tokens_cleared(c: ExecutionContextView, gateway: Seq<char>, required: nat, other: Seq<char>)
    ensures
        !c.without_tokens(gateway).has_tokens(gateway),
        c.without_tokens(gateway).tokens(gateway) == Seq::<Seq<char>>::empty(),
        !c.without_tokens(gateway).tokens_arrived(gateway, required),
        other != gateway ==> c.without_tokens(gateway).tokens(other) == c.tokens(other)
            && c.without_tokens(gateway).has_tokens(other) == c.has_tokens(other),
{
    lemma_lookup_filter(c.incoming_tokens, other_gateway(gateway), token_gateway(), gateway);
    lemma_lookup_filter(c.incoming_tokens, other_gateway(gateway), token_gateway(), other);
}

/// Keeping only some entries keeps their keys distinct.
proof fn lemma_filter_distinct<A>(s: Seq<A>, key: spec_fn(A) -> Seq<char>, p: spec_fn(A) -> bool)
    requires
        distinct_keys(s, key),
    ensures
        distinct_keys(s.filter(p), key),
    decreases s.len(),
{
    if s.len() > 0 {
        let init = s.drop_last();
        assert(distinct_keys(init, key)) by {
            assert forall|i: int, j: int| 0 <= i < j < init.len() implies key(#[trigger] init[i]) != key(
                #[trigger] init[j],
            ) by {
                assert(init[i] == s[i] && init[j] == s[j]);
            }
        }
        lemma_filter_distinct(init, key, p);
        assert(s =~= init.push(s.last()));
        lemma_filter_push(init, p, s.last());
        if p(s.last()) {
            let f = init.filter(p);
            let t = f.push(s.last());
            assert forall|i: int, j: int| 0 <= i < j < t.len() implies key(#[trigger] t[i]) != key(#[trigger] t[j]) by {
                if j == f.len() {
                    assert(t[i] == f[i]);
                    assert(f.contains(f[i]));
                    init.lemma_filter_contains_rev(p, f[i]);
                    let k = choose|k: int| 0 <= k < init.len() && init[k] == f[i];
                    assert(s[k] == f[i]);
                    assert(t[j] == s[s.len() - 1]);
                } else {
                    assert(t[i] == f[i] && t[j] == f[j]);
                }
            }
        }
    }
}

/// Variables keep distinct names, and token entries distinct gateways,
/// through every change a context undergoes: setting a variable, a token's
/// arrival, and dropping a gateway's tokens (a new context starts with
/// none of either).
pub proof fn law_keys_stay_distinct(
    c: ExecutionContextView,
    name: Seq<char>,
    value: JsonData,
    gateway: Seq<char>,
    source: Seq<char>,
)
    requires
        c.keys_distinct(),
    ensures
        c.with_variable(name, value).keys_distinct(),
        c.with_token(gateway, source).keys_distinct(),
        c.without_tokens(gateway).keys_distinct(),
{
    lemma_upsert_distinct(c.variables, variable_name(), (name, value));
    let sources = sources_of(c.incoming_tokens, gateway);
    lemma_upsert_distinct(
        c.incoming_tokens,
        token_gateway(),
        (gateway, if sources.contains(source) { sources } else { sources.push(source) }),
    );
    lemma_filter_distinct(c.incoming_tokens, token_gateway(), other_gateway(gateway));
}

/// The context after tokens from `sources`, in order, reach gateway
/// `gateway`.
pub open spec fn tokens_from(c: ExecutionContextView, gateway: Seq<char>, sources: Seq<Seq<char>>) -> ExecutionContextView
    decreases sources.len(),
{
    if sources.len() == 0 {
        c
    } else {
        tokens_from(c, gateway, sources.drop_last()).with_token(gateway, sources.last())
    }
}

/// A gateway that had no token entry counts the distinct sources whose
/// tokens reached it: after tokens from distinct sources arrive, its
/// sources are those, in order of arrival, and `required` of them have
/// arrived exactly when at least one and at least `required` did.
pub proof fn law_join_counts_sources(c: ExecutionContextView, gateway: Seq<char>, sources: Seq<Seq<char>>, required: nat)
    requires
        !c.has_tokens(gateway),
        sources.no_duplicates(),
    ensures
        tokens_from(c, gateway, sources).tokens(gateway) == sources,
        tokens_from(c, gateway, sources).tokens_arrived(gateway, required) == (sources.len() > 0 && sources.len()
            >= required),
    decreases sources.len(),
{
    if sources.len() == 0 {
        assert(c.tokens(gateway) =~= Seq::<Seq<char>>::empty());
    } else {
        let init = sources.drop_last();
        assert(init.no_duplicates()) by {
            assert forall|i: int, j: int| 0 <= i < init.len() && 0 <= j < init.len() && i != j implies init[i]
                != init[j] by {
                assert(init[i] == sources[i] && init[j] == sources[j]);
            }
        }
        law_join_counts_sources(c, gateway, init, required);
        let before = tokens_from(c, gateway, init);
        law_token_arrival(before, gateway, sources.last(), gateway);
        assert(!init.contains(sources.last())) by {
            if init.contains(sources.last()) {
                let k = choose|k: int| 0 <= k < init.len() && init[k] == sources.last();
                assert(sources[k] == sources[sources.len() - 1]);
            }
        }
        assert(init.push(sources.last()) =~= sources);
    }
}

} // verus!
