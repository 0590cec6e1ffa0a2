//! The executable behaviour of BPMN events, tasks and gateways.

pub mod event;
pub mod gateway;
pub mod task;

use vstd::prelude::*;
use crate::engine::context::strings_view;
use crate::lists::{lemma_map_push, lemma_take_next};
use crate::model::elements::{ProcessDefinition, SequenceFlow};

pub use event::{EndEventActivity, IntermediateCatchEventActivity, IntermediateThrowEventActivity, StartEventActivity};
pub use gateway::{ExclusiveGatewayActivity, InclusiveGatewayActivity, ParallelGatewayActivity};
pub use task::{CallActivityTask, ManualTaskActivity, ScriptTaskActivity, ServiceTaskActivity, UserTaskActivity};

verus! {

/// The IDs of the elements that the flows `flows` lead to, in order.
pub open spec fn targets(flows: Seq<SequenceFlow>) -> Seq<Seq<char>> {
    flows.map_values(|f: SequenceFlow| f.target_ref@)
}

/// The IDs of the elements that the flows leaving `id` lead to, in the
/// order the definition holds the flows.
pub fn outgoing_targets(definition: &ProcessDefinition, id: &str) -> (r: Vec<String>)
    ensures
        strings_view(r@) == targets(definition@.outgoing(id@)),
{
    let flows = definition.get_outgoing_flows(id);
    let ghost fs = flows@.map_values(|f: &SequenceFlow| *f);
    let mut r: Vec<String> = Vec::new();
    for i in 0..flows.len()
        invariant
            fs == flows@.map_values(|f: &SequenceFlow| *f),
            strings_view(r@) == targets(fs.take(i as int)),
    {
        proof {
            lemma_take_next(fs, i as int);
        }
        let ghost before = r@;
        let t = flows[i].target_ref.clone();
        r.push(t);
        proof {
            lemma_map_push(before, t, |x: String| x@);
            lemma_map_push(fs.take(i as int), fs[i as int], |f: SequenceFlow| f.target_ref@);
        }
    }
    proof {
        assert(fs.take(fs.len() as int) =~= fs);
    }
    r
}

} // verus!
