//! Plain-value model of tensors, named tensor banks and devices.
//!
//! The tensor engine itself is an external collaborator; this crate only
//! reasons about the data it owns: a tensor is a shape together with its raw
//! element bytes, and a variable store is an ordered bank of uniquely named
//! tensors pinned to a device.

use vstd::prelude::*;
use crate::Error;

verus! {

/// The device a store's tensors live on.
#[derive(Clone, Copy, Debug, PartialEq, Eq, Structural)]
pub enum Device {
    Cpu,
    /// An accelerator, by index.
    Cuda(u32),
}

/// Mathematical view of a tensor: its dimensions and its element bytes.
pub struct TensorView {
    pub shape: Seq<u32>,
    pub data: Seq<u8>,
}

/// A raw tensor: a shape (outermost dimension first) and its element bytes.
#[derive(Clone, Debug, PartialEq, Eq)]
pub struct TensorData {
    pub shape: Vec<u32>,
    pub data: Vec<u8>,
}

impl View for TensorData {
    type V = TensorView;

    open spec fn view(&self) -> TensorView {
        TensorView { shape: self.shape@, data: self.data@ }
    }
}

impl TensorData {
    /// The outermost dimension, read as the batch size.
    ///
    /// A tensor of rank zero has no batch dimension; asking for one is a
    /// graph-level shape error.
    pub fn batch_size(&self) -> (r: Result<u32, Error>)
        ensures
            self@.shape.len() >= 1 ==> r == Ok::<u32, Error>(self@.shape[0]),
            self@.shape.len() == 0 ==> r == Err::<u32, Error>(Error::GraphError),
    {
        if self.shape.len() >= 1 {
            Ok(self.shape[0])
        } else {
            Err(Error::GraphError)
        }
    }
}

/// Mathematical view of one named tensor.
pub struct NamedTensorView {
    pub name: Seq<u8>,
    pub tensor: TensorView,
}

/// One named tensor of a store or of a checkpoint.
///
/// Names are byte strings (UTF-8 in practice); the codec stores them verbatim.
#[derive(Clone, Debug, PartialEq, Eq)]
pub struct NamedTensor {
    pub name: Vec<u8>,
    pub tensor: TensorData,
}

impl View for NamedTensor {
    type V = NamedTensorView;

    open spec fn view(&self) -> NamedTensorView {
        NamedTensorView { name: self.name@, tensor: self.tensor@ }
    }
}

impl DeepView for NamedTensor {
    type V = NamedTensorView;

    open spec fn deep_view(&self) -> NamedTensorView {
        self@
    }
}

/// All names in the sequence are distinct.
pub open spec fn names_unique(entries: Seq<NamedTensorView>) -> bool {
    forall|i: int, j: int|
        0 <= i < j < entries.len() ==> entries[i].name != entries[j].name
}

/// The mutable bank of named trainable tensors backing a computation graph.
///
/// Invariant: names are unique; every constructor of this crate establishes
/// and preserves it.
#[derive(Debug)]
pub struct VarStore {
    device: Device,
    entries: Vec<NamedTensor>,
}

impl View for VarStore {
    type V = Seq<NamedTensorView>;

    closed spec fn view(&self) -> Seq<NamedTensorView> {
        self.entries.deep_view()
    }
}

impl VarStore {
    /// Well-formedness: tensor names are unique.
    pub open spec fn wf(self) -> bool {
        names_unique(self@)
    }

    /// The device the store is pinned to.
    pub closed spec fn spec_device(self) -> Device {
        self.device
    }

    /// A fresh, empty store pinned to `device`.
    pub fn new(device: Device) -> (r: VarStore)
        ensures
            r@ == Seq::<NamedTensorView>::empty(),
            r.spec_device() == device,
            r.wf(),
    {
        VarStore { device, entries: Vec::new() }
    }

    /// How many named tensors the store holds.
    pub fn len(&self) -> (r: usize)
        ensures
            r == self@.len(),
    {
        self.entries.len()
    }

    /// Whether some entry already carries `name`.
    pub fn contains_name(&self, name: &Vec<u8>) -> (r: bool)
        ensures
            r == exists|i: int| 0 <= i < self@.len() && self@[i].name == name@,
    {
        let mut k: usize = 0;
        while k < self.entries.len()
            invariant
                0 <= k <= self.entries.len(),
                self@.len() == self.entries.len(),
                forall|i: int| 0 <= i < k ==> self@[i].name != name@,
            decreases self.entries.len() - k,
        {
            assert(self@[k as int].name == self.entries@[k as int].name@);
            if bytes_equal(&self.entries[k].name, name) {
                return true;
            }
            k += 1;
        }
        false
    }

    /// Appends a named tensor; a duplicate name is rejected.
    pub fn load(&mut self, name: Vec<u8>, tensor: TensorData) -> (r: Result<(), Error>)
        requires
            old(self).wf(),
        ensures
            final(self).wf(),
            final(self).spec_device() == old(self).spec_device(),
            (exists|i: int| 0 <= i < old(self)@.len() && old(self)@[i].name == name@) ==> (
                r == Err::<(), Error>(Error::SerializationError)
                && final(self)@ == old(self)@
            ),
            !(exists|i: int| 0 <= i < old(self)@.len() && old(self)@[i].name == name@) ==> (
                r == Ok::<(), Error>(())
                && final(self)@ == old(self)@.push((NamedTensorView { name: name@, tensor: tensor@ }))
            ),
    {
        if self.contains_name(&name) {
            Err(Error::SerializationError)
        } else {
            self.entries.push(NamedTensor { name, tensor });
            proof {
                assert(self@ =~= old(self)@.push((NamedTensorView { name: name@, tensor: tensor@ })));
            }
            Ok(())
        }
    }

    /// The entry at `i`.
    pub fn entry(&self, i: usize) -> (r: &NamedTensor)
        requires
            i < self@.len(),
        ensures
            r@ == self@[i as int],
    {
        &self.entries[i]
    }

    /// Looks a tensor up by name.
    pub fn get(&self, name: &Vec<u8>) -> (r: Option<&TensorData>)
        ensures
            match r {
                Some(t) => exists|i: int| 0 <= i < self@.len() && self@[i].name == name@
                    && t@ == self@[i].tensor,
                None => !(exists|i: int| 0 <= i < self@.len() && self@[i].name == name@),
            },
    {
        let mut k: usize = 0;
        while k < self.entries.len()
            invariant
                0 <= k <= self.entries.len(),
                self@.len() == self.entries.len(),
                forall|i: int| 0 <= i < k ==> self@[i].name != name@,
            decreases self.entries.len() - k,
        {
            assert(self@[k as int].name == self.entries@[k as int].name@);
            if bytes_equal(&self.entries[k].name, name) {
                return Some(&self.entries[k].tensor);
            }
            k += 1;
        }
        None
    }

    /// Re-pins the store (and so all its tensors) to `device`.
    pub fn set_device(&mut self, device: Device)
        ensures
            final(self)@ == old(self)@,
            final(self).spec_device() == device,
    {
        self.device = device;
    }
}

/// Byte-for-byte equality of two byte vectors.
pub fn bytes_equal(a: &Vec<u8>, b: &Vec<u8>) -> (r: bool)
    ensures
        r == (a@ == b@),
{
    if a.len() != b.len() {
        proof {
            assert(a@ != b@) by {
                assert(a@.len() != b@.len());
            }
        }
        return false;
    }
    let mut k: usize = 0;
    while k < a.len()
        invariant
            0 <= k <= a.len(),
            a@.len() == b@.len(),
            forall|i: int| 0 <= i < k ==> a@[i] == b@[i],
        decreases a.len() - k,
    {
        if a[k] != b[k] {
            return false;
        }
        k += 1;
    }
    proof {
        assert(a@ =~= b@);
    }
    true
}

} // verus!
