//! The forward pass of a module.
//!
//! A forward pass over guarded inputs first derives and publishes the
//! module's DP-SGD context from its first input, then hands the inputs,
//! unmodified, to the computation-graph engine together with the guard
//! context the output must carry. The engine itself is an external
//! collaborator; [`ForwardPass::complete`] wraps its raw output back into a
//! guarded tensor.

use vstd::prelude::*;
use crate::Error;
use crate::rational::Ratio;
use crate::privacy::{
    DpSGDContext, GuardContext, GuardedTensor, derive_dp_context, spec_derived_context,
};
use crate::tensor::TensorData;

verus! {

/// The guard context a forward pass's composed output carries: the first
/// input's accounting context, or a payload-free zero context when the pass
/// ran on no inputs.
pub open spec fn spec_composed_guard(inputs: Seq<GuardedTensor>) -> GuardContext {
    if inputs.len() >= 1 {
        inputs[0].guard
    } else {
        GuardContext { delta: Ratio { num: 0, den: 1 }, nb_samples: 1 }
    }
}

/// A prepared forward pass: the guarded inputs to run the graph on,
/// unmodified, and the guard context its output must carry.
pub struct ForwardPass {
    pub inputs: Vec<GuardedTensor>,
    pub guard: GuardContext,
}

impl ForwardPass {
    /// Wraps the engine's raw output back into a guarded tensor carrying the
    /// pass's composed guard context.
    pub fn complete(self, raw_output: TensorData) -> (r: GuardedTensor)
        ensures
            r.data@ == raw_output@,
            r.guard == self.guard,
    {
        GuardedTensor { data: raw_output, guard: self.guard }
    }
}

/// The forward-pass function of a module, standing on its own so that it can
/// be held beside a parameter view of the same module.
pub struct Forward {
    graph: Vec<u8>,
}

impl Forward {
    /// The serialized computation graph the pass runs.
    pub closed spec fn spec_graph(&self) -> Seq<u8> {
        self.graph@
    }

    pub(crate) fn from_graph(graph: Vec<u8>) -> (f: Forward)
        ensures
            f.spec_graph() == graph@,
    {
        Forward { graph }
    }

    /// The graph bytes, for the engine that runs them.
    pub fn graph_bytes(&self) -> (r: &Vec<u8>)
        ensures
            r@ == self.spec_graph(),
    {
        &self.graph
    }

    /// Prepares a forward pass over `inputs` against the module's shared
    /// context cell.
    ///
    /// With at least one input, a fresh context derived from the first input
    /// fully replaces whatever `context` held; with none, `context` is left
    /// exactly as it was. Fails with [`Error::GraphError`], publishing
    /// nothing, when the first input has no batch dimension.
    pub fn forward(&self, context: &mut Option<DpSGDContext>, inputs: Vec<GuardedTensor>) -> (r:
        Result<ForwardPass, Error>)
        requires
            inputs@.len() >= 1 ==> inputs@[0].wf(),
        ensures
            inputs@.len() == 0 ==> *final(context) == *old(context),
            inputs@.len() >= 1 && inputs@[0].data@.shape.len() == 0 ==> (
                r == Err::<ForwardPass, Error>(Error::GraphError)
                && *final(context) == *old(context)
            ),
            inputs@.len() >= 1 && inputs@[0].data@.shape.len() >= 1 ==> (
                *final(context) == Some(spec_derived_context(inputs@[0]))
                && spec_derived_context(inputs@[0]).wf()
            ),
            (inputs@.len() == 0 || inputs@[0].data@.shape.len() >= 1) ==> (match r {
                Ok(p) => p.inputs@ == inputs@ && p.guard == spec_composed_guard(inputs@),
                Err(_) => false,
            }),
    {
        if inputs.len() > 0 {
            let ctx = match derive_dp_context(&inputs[0]) {
                Ok(c) => c,
                Err(e) => {
                    return Err(e);
                }
            };
            *context = Some(ctx);
            let guard = inputs[0].guard;
            Ok(ForwardPass { inputs, guard })
        } else {
            let guard = GuardContext { delta: Ratio { num: 0, den: 1 }, nb_samples: 1 };
            Ok(ForwardPass { inputs, guard })
        }
    }
}

} // verus!
