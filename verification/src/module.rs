//! A trainable module: computation graph, variable store and shared
//! privacy context.
//!
//! The module is the single source of truth for trainable state. Forward
//! views run the graph and publish the DP-SGD context; parameter views drive
//! optimizer steps and, in the Private variant, read that context back. The
//! context cell starts unset; a forward pass takes short-lived write access
//! to it through [`Module::dp_context_mut`] and fully replaces its value,
//! while update steps read one snapshot through [`Module::dp_context`].

use vstd::prelude::*;
use crate::Error;
use crate::codec::{decode_store, spec_decode_store};
use crate::encoding::clone_bytes;
use crate::forward::Forward;
use crate::params::{LossType, Parameters};
use crate::privacy::DpSGDContext;
use crate::rational::Ratio;
use crate::stream::SizedObjectsBytes;
use crate::tensor::{Device, NamedTensorView, VarStore};

verus! {

/// A trainable module.
#[derive(Debug)]
pub struct Module {
    graph: Vec<u8>,
    var_store: VarStore,
    dp_sgd_context: Option<DpSGDContext>,
}

impl Module {
    /// The serialized computation graph.
    pub closed spec fn spec_graph(&self) -> Seq<u8> {
        self.graph@
    }

    /// The named tensors of the variable store.
    pub closed spec fn spec_store(&self) -> Seq<NamedTensorView> {
        self.var_store@
    }

    /// The device the variable store is pinned to.
    pub closed spec fn spec_device(&self) -> Device {
        self.var_store.spec_device()
    }

    /// The shared privacy context; unset until a forward pass publishes it.
    pub closed spec fn spec_context(&self) -> Option<DpSGDContext> {
        self.dp_sgd_context
    }

    /// Well-formedness: the variable store's names are unique.
    pub closed spec fn wf(&self) -> bool {
        self.var_store.wf()
    }

    /// Loads a module from an in-memory length-prefixed object stream.
    ///
    /// The first object is the module's archive: it populates a fresh
    /// CPU-resident variable store and is kept as the graph payload. Fails
    /// with [`Error::FileFormat`] when the stream holds no object at all or
    /// the first object is malformed; the privacy context starts unset.
    pub fn load_from_bytes(stream: SizedObjectsBytes) -> (r: Result<Module, Error>)
        ensures
            stream@.len() == 0 ==> r == Err::<Module, Error>(Error::FileFormat),
            stream@.len() >= 1 ==> match spec_decode_store(stream@[0]) {
                Some(es) => (match r {
                    Ok(m) => m.spec_store() == es && m.spec_graph() == stream@[0]
                        && m.spec_context() is None && m.spec_device() == Device::Cpu && m.wf(),
                    Err(_) => false,
                }),
                None => r == Err::<Module, Error>(Error::FileFormat),
            },
    {
        let mut stream = stream;
        let first = match stream.next() {
            Some(o) => o,
            None => {
                return Err(Error::FileFormat);
            }
        };
        let var_store = match decode_store(first.as_slice(), Device::Cpu) {
            Ok(s) => s,
            Err(e) => {
                return Err(e);
            }
        };
        Ok(Module { graph: first, var_store, dp_sgd_context: None })
    }

    /// Loads a module from a single in-memory archive object, without
    /// stream framing, against a fresh CPU-resident variable store.
    ///
    /// Fails with [`Error::FileFormat`] when the object is malformed; the
    /// privacy context starts unset.
    pub fn load_from_object(object: Vec<u8>) -> (r: Result<Module, Error>)
        ensures
            match spec_decode_store(object@) {
                Some(es) => (match r {
                    Ok(m) => m.spec_store() == es && m.spec_graph() == object@
                        && m.spec_context() is None && m.spec_device() == Device::Cpu && m.wf(),
                    Err(_) => false,
                }),
                None => r == Err::<Module, Error>(Error::FileFormat),
            },
    {
        let var_store = match decode_store(object.as_slice(), Device::Cpu) {
            Ok(s) => s,
            Err(e) => {
                return Err(e);
            }
        };
        Ok(Module { graph: object, var_store, dp_sgd_context: None })
    }

    /// The forward pass of the module as a standalone [`Forward`] value.
    ///
    /// May be taken any number of times; every returned value runs the same
    /// graph and publishes to the same context cell (handed to it through
    /// [`Module::dp_context_mut`]).
    pub fn forward_fn(&self) -> (f: Forward)
        ensures
            f.spec_graph() == self.spec_graph(),
    {
        Forward::from_graph(clone_bytes(&self.graph))
    }

    /// Read access to the shared privacy context.
    pub fn dp_context(&self) -> (r: &Option<DpSGDContext>)
        ensures
            *r == self.spec_context(),
    {
        &self.dp_sgd_context
    }

    /// Write access to the shared privacy context, for a forward pass to
    /// publish into.
    pub fn dp_context_mut(&mut self) -> (r: &mut Option<DpSGDContext>)
        ensures
            *r == old(self).spec_context(),
            final(self).spec_context() == *final(r),
            final(self).spec_graph() == old(self).spec_graph(),
            final(self).spec_store() == old(self).spec_store(),
            final(self).spec_device() == old(self).spec_device(),
            final(self).wf() == old(self).wf(),
    {
        &mut self.dp_sgd_context
    }

    /// The variable store.
    pub fn store(&self) -> (r: &VarStore)
        ensures
            r@ == self.spec_store(),
            r.spec_device() == self.spec_device(),
            r.wf() == self.wf(),
    {
        &self.var_store
    }

    /// The forward pass and a Standard parameter view over the module.
    ///
    /// Taking the views borrows the module exclusively; the returned view
    /// carries no privacy parameters and its update step never consults the
    /// privacy context.
    pub fn parameters(&mut self) -> (r: (Forward, Parameters))
        ensures
            *final(self) == *old(self),
            r.0.spec_graph() == old(self).spec_graph(),
            r.1 == Parameters::Standard,
    {
        (Forward::from_graph(clone_bytes(&self.graph)), Parameters::Standard)
    }

    /// The forward pass and a Private parameter view over the module.
    ///
    /// `eps` and `max_grad_norm` must be positive (and well formed), else
    /// the view is refused with [`Error::InvalidArgument`] before any state
    /// changes.
    pub fn private_parameters(&mut self, eps: Ratio, max_grad_norm: Ratio, loss_type: LossType)
        -> (r: Result<(Forward, Parameters), Error>)
        ensures
            *final(self) == *old(self),
            (eps.wf() && eps.is_positive() && max_grad_norm.wf() && max_grad_norm.is_positive())
                ==> (match r {
                    Ok(fp) => fp.0.spec_graph() == old(self).spec_graph()
                        && fp.1 == (Parameters::Private { eps, max_grad_norm, loss_type }),
                    Err(_) => false,
                }),
            !(eps.wf() && eps.is_positive() && max_grad_norm.wf() && max_grad_norm.is_positive())
                ==> r == Err::<(Forward, Parameters), Error>(Error::InvalidArgument),
    {
        if eps.den >= 1 && eps.num >= 1 && max_grad_norm.den >= 1 && max_grad_norm.num >= 1 {
            Ok((
                Forward::from_graph(clone_bytes(&self.graph)),
                Parameters::Private { eps, max_grad_norm, loss_type },
            ))
        } else {
            Err(Error::InvalidArgument)
        }
    }

    /// Serializes the module's variable store as the one object of a fresh
    /// length-prefixed stream (the graph structure is not preserved by this
    /// path).
    ///
    /// Fails with [`Error::SerializationError`] when some name, shape or
    /// data object's byte length does not fit the 4-byte prefix.
    pub fn save_to_stream(&self) -> (r: Result<SizedObjectsBytes, Error>)
        ensures
            match r {
                Ok(s) => crate::codec::spec_store_encodable(self.spec_store())
                    && s@ == seq![crate::codec::spec_encode_store(self.spec_store())],
                Err(e) => e == Error::SerializationError
                    && !crate::codec::spec_store_encodable(self.spec_store()),
            },
    {
        let archive = match crate::codec::encode_store(&self.var_store) {
            Ok(b) => b,
            Err(e) => {
                return Err(e);
            }
        };
        let mut stream = SizedObjectsBytes::new();
        let ghost av = archive@;
        stream.append_back(archive);
        proof {
            assert(stream@ =~= seq![av]);
        }
        Ok(stream)
    }

    /// Moves all owned tensors to `device`; everything else is untouched.
    pub fn set_device(&mut self, device: Device)
        ensures
            final(self).spec_device() == device,
            final(self).spec_graph() == old(self).spec_graph(),
            final(self).spec_store() == old(self).spec_store(),
            final(self).spec_context() == old(self).spec_context(),
            final(self).wf() == old(self).wf(),
    {
        self.var_store.set_device(device);
    }
}

/// An update step on a freshly loaded module, before any forward pass has
/// published a privacy context, must fail with a logic error.
pub proof fn lemma_fresh_module_step_fails(m: Module, p: Parameters)
    requires
        m.spec_context() is None,
        p is Private,
    ensures
        crate::params::spec_step_plan(p, m.spec_context())
            == Err::<crate::params::StepPlan, Error>(Error::LogicError),
{
}

} // verus!
