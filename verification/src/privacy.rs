//! The privacy-guard surface and the per-forward-pass DP-SGD context.
//!
//! A guarded tensor carries accounting metadata (privacy-loss parameter and
//! sample-population size) alongside its raw payload. Each forward pass over
//! at least one guarded input derives a fresh [`DpSGDContext`] from the first
//! input; the private parameter-update path later reads that context.

use vstd::prelude::*;
use crate::Error;
use crate::rational::Ratio;
use crate::tensor::TensorData;

verus! {

/// Differential-privacy accounting metadata attached to a guarded value.
#[derive(Clone, Copy, Debug, PartialEq, Eq, Structural)]
pub struct GuardContext {
    /// The recorded privacy-loss parameter.
    pub delta: Ratio,
    /// The total sample-population size the guard accounts over.
    pub nb_samples: u64,
}

impl GuardContext {
    /// Well-formedness: the population is non-empty and delta is a valid ratio.
    pub open spec fn wf(self) -> bool {
        self.delta.wf() && self.nb_samples >= 1
    }
}

/// A privacy-guard token with no payload.
///
/// It preserves the accounting context it was derived from and carries
/// nothing else.
#[derive(Clone, Copy, Debug, PartialEq, Eq, Structural)]
pub struct PrivacyGuard {
    pub context: GuardContext,
}

/// A raw tensor wrapped with differential-privacy accounting metadata.
#[derive(Clone, Debug, PartialEq, Eq)]
pub struct GuardedTensor {
    pub data: TensorData,
    pub guard: GuardContext,
}

impl GuardedTensor {
    /// Well-formedness of the guard metadata.
    pub open spec fn wf(self) -> bool {
        self.guard.wf()
    }

    /// The guard's recorded privacy-loss parameter.
    pub fn delta(&self) -> (r: Ratio)
        ensures
            r == self.guard.delta,
    {
        self.guard.delta
    }

    /// The guard's recorded sample-population size.
    pub fn nb_samples(&self) -> (r: u64)
        ensures
            r == self.guard.nb_samples,
    {
        self.guard.nb_samples
    }

    /// The batch size of the wrapped tensor (its outermost dimension).
    pub fn batch_size(&self) -> (r: Result<u32, Error>)
        ensures
            self.data@.shape.len() >= 1 ==> r == Ok::<u32, Error>(self.data@.shape[0]),
            self.data@.shape.len() == 0 ==> r == Err::<u32, Error>(Error::GraphError),
    {
        self.data.batch_size()
    }

    /// An empty guard derived from this one: same accounting context, no payload.
    pub fn empty(&self) -> (r: PrivacyGuard)
        ensures
            r == (PrivacyGuard { context: self.guard }),
    {
        PrivacyGuard { context: self.guard }
    }
}

/// The per-forward-pass DP-SGD context of one module.
///
/// Published (fully replaced) by every forward pass that receives at least
/// one guarded input; read by the private parameter-update path.
#[derive(Clone, Copy, Debug, PartialEq, Eq, Structural)]
pub struct DpSGDContext {
    pub delta: Ratio,
    pub batch_sampling_rate: Ratio,
    pub empty_guard: PrivacyGuard,
}

impl DpSGDContext {
    /// The three fields are mutually consistent: they were derived from one
    /// guarded input (see [`spec_derived_context`]).
    pub open spec fn wf(self) -> bool {
        self.delta.wf() && self.batch_sampling_rate.wf()
    }

    /// The privacy-loss parameter recorded at the last forward pass.
    pub fn delta(&self) -> (r: Ratio)
        ensures
            r == self.delta,
    {
        self.delta
    }

    /// The batch sampling rate recorded at the last forward pass.
    pub fn batch_sampling_rate(&self) -> (r: Ratio)
        ensures
            r == self.batch_sampling_rate,
    {
        self.batch_sampling_rate
    }

    /// The empty guard token recorded at the last forward pass.
    pub fn empty_guard(&self) -> (r: &PrivacyGuard)
        ensures
            r == self.empty_guard,
    {
        &self.empty_guard
    }
}

/// The context a forward pass over `input` (as its first guarded input)
/// derives: the guard's delta, the batch size over the population size, and
/// an empty guard preserving the input's accounting context.
pub open spec fn spec_derived_context(input: GuardedTensor) -> DpSGDContext
    recommends
        input.data@.shape.len() >= 1,
{
    DpSGDContext {
        delta: input.guard.delta,
        batch_sampling_rate: Ratio { num: input.data@.shape[0] as u64, den: input.guard.nb_samples },
        empty_guard: PrivacyGuard { context: input.guard },
    }
}

/// Derives the DP-SGD context a forward pass publishes from its first input.
///
/// Fails with [`Error::GraphError`] when the tensor has no batch dimension.
pub fn derive_dp_context(input: &GuardedTensor) -> (r: Result<DpSGDContext, Error>)
    requires
        input.wf(),
    ensures
        input.data@.shape.len() >= 1 ==> r == Ok::<DpSGDContext, Error>(spec_derived_context(*input))
            && spec_derived_context(*input).wf(),
        input.data@.shape.len() == 0 ==> r == Err::<DpSGDContext, Error>(Error::GraphError),
{
    let batch = input.batch_size()?;
    Ok(DpSGDContext {
        delta: input.guard.delta,
        batch_sampling_rate: Ratio { num: batch as u64, den: input.guard.nb_samples },
        empty_guard: PrivacyGuard { context: input.guard },
    })
}

} // verus!
