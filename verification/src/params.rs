//! Parameter views over a module's trainable state.
//!
//! A parameter view is either Standard (plain trainable tensors, no privacy
//! semantics) or Private (the same tensors plus the DP-SGD update policy:
//! target privacy-loss bound, per-sample clipping threshold, loss-reduction
//! mode). The optimizer's update step consults the view through
//! [`Parameters::step_context`], which refuses to proceed while the module's
//! privacy context is unset.

use vstd::prelude::*;
use crate::Error;
use crate::privacy::DpSGDContext;
use crate::rational::Ratio;

verus! {

/// How the loss the graph was authored with reduces over the batch.
///
/// Sum and Mean change the effective per-sample gradient scale and must be
/// accounted for identically regardless of the graph's own reduction.
#[derive(Clone, Copy, Debug, PartialEq, Eq, Structural)]
pub enum LossType {
    Sum,
    Mean,
}

/// A view over a module's trainable parameters.
#[derive(Clone, Copy, Debug, PartialEq, Eq, Structural)]
pub enum Parameters {
    /// Plain trainable tensors; the update step ignores the privacy context.
    Standard,
    /// Trainable tensors plus the DP-SGD update policy.
    Private { eps: Ratio, max_grad_norm: Ratio, loss_type: LossType },
}

/// What an update step is allowed to do, resolved against the module's
/// current privacy context.
#[derive(Clone, Copy, Debug, PartialEq, Eq, Structural)]
pub enum StepPlan {
    /// An unprivileged step: no clipping, no noise.
    Standard,
    /// A DP-SGD step: clip per-sample gradients to `max_grad_norm` and size
    /// the injected noise from the snapshot `context`, consistently with
    /// `loss_type`.
    Private { eps: Ratio, max_grad_norm: Ratio, loss_type: LossType, context: DpSGDContext },
}

/// The step a view resolves to against a context: a Standard view never
/// consults the context; a Private view aborts with [`Error::LogicError`]
/// while the context is unset, and otherwise reads one snapshot of it.
pub open spec fn spec_step_plan(p: Parameters, context: Option<DpSGDContext>) -> Result<
    StepPlan,
    Error,
> {
    match p {
        Parameters::Standard => Ok(StepPlan::Standard),
        Parameters::Private { eps, max_grad_norm, loss_type } => match context {
            None => Err(Error::LogicError),
            Some(c) => Ok(
                (StepPlan::Private { eps, max_grad_norm, loss_type, context: c }),
            ),
        },
    }
}

impl Parameters {
    /// Resolves the update step this view allows against the module's
    /// current privacy context (a read-only snapshot).
    ///
    /// For a Private view with an unset context this fails with
    /// [`Error::LogicError`]: the step must abort rather than run with a
    /// default or stale context.
    pub fn step_context(&self, context: &Option<DpSGDContext>) -> (r: Result<StepPlan, Error>)
        ensures
            r == spec_step_plan(*self, *context),
    {
        match self {
            Parameters::Standard => Ok(StepPlan::Standard),
            Parameters::Private { eps, max_grad_norm, loss_type } => match context {
                None => Err(Error::LogicError),
                Some(c) => Ok(
                    StepPlan::Private {
                        eps: *eps,
                        max_grad_norm: *max_grad_norm,
                        loss_type: *loss_type,
                        context: *c,
                    },
                ),
            },
        }
    }
}

} // verus!
