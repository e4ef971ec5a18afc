//! The length-prefixed object stream.
//!
//! A generic container used both for module loading and for checkpoint
//! serialization: a sequence of byte objects whose wire form is a run of
//! `(4-byte little-endian length, payload)` records. `next` yields payloads
//! in order; a stream of zero records is valid in itself, callers that need
//! at least one object must check.

use vstd::prelude::*;
use crate::Error;
use crate::encoding::{
    spec_encode_objects, spec_decode_objects, spec_objects_encodable, encode_objects,
    decode_objects,
};

verus! {

/// An in-memory sequence of byte objects with a length-prefixed wire form.
#[derive(Debug)]
pub struct SizedObjectsBytes {
    objects: Vec<Vec<u8>>,
}

impl View for SizedObjectsBytes {
    type V = Seq<Seq<u8>>;

    closed spec fn view(&self) -> Seq<Seq<u8>> {
        self.objects.deep_view()
    }
}

impl SizedObjectsBytes {
    /// A stream with no objects.
    pub fn new() -> (r: SizedObjectsBytes)
        ensures
            r@ == Seq::<Seq<u8>>::empty(),
    {
        let r = SizedObjectsBytes { objects: Vec::new() };
        proof {
            assert(r@ =~= Seq::<Seq<u8>>::empty());
        }
        r
    }

    /// How many objects the stream holds.
    pub fn len(&self) -> (r: usize)
        ensures
            r == self@.len(),
    {
        self.objects.len()
    }

    /// Appends one object at the back of the stream.
    pub fn append_back(&mut self, obj: Vec<u8>)
        ensures
            final(self)@ == old(self)@.push(obj@),
    {
        let ghost oldv = self.objects@;
        let ghost objv = obj@;
        proof {
            crate::encoding::lemma_bytes_deep_view(obj);
        }
        self.objects.push(obj);
        proof {
            assert forall|k: int| 0 <= k < self@.len()
                implies self@[k] == old(self)@.push(objv)[k] by {
                assert(self@[k] == self.objects@[k].deep_view());
                if k < oldv.len() {
                    assert(self.objects@[k] == oldv[k]);
                }
            }
            assert(self@ =~= old(self)@.push(objv));
        }
    }

    /// Removes and returns the front object, or `None` on an empty stream.
    pub fn next(&mut self) -> (r: Option<Vec<u8>>)
        ensures
            old(self)@.len() == 0 ==> r == None::<Vec<u8>> && final(self)@ == old(self)@,
            old(self)@.len() >= 1 ==> (match r {
                Some(obj) => obj@ == old(self)@[0] && final(self)@ == old(self)@.drop_first(),
                None => false,
            }),
    {
        if self.objects.len() == 0 {
            None
        } else {
            let ghost oldv = self.objects@;
            let obj = self.objects.remove(0);
            proof {
                assert forall|k: int| 0 <= k < self@.len()
                    implies self@[k] == old(self)@.drop_first()[k] by {
                    assert(self@[k] == self.objects@[k].deep_view());
                    assert(self.objects@[k] == oldv[k + 1]);
                }
                assert(self@ =~= old(self)@.drop_first());
                crate::encoding::lemma_bytes_deep_view(obj);
            }
            Some(obj)
        }
    }

    /// The stream's wire form: its records, in order.
    ///
    /// Fails with [`Error::SerializationError`] when some object's byte
    /// length does not fit the 4-byte prefix.
    pub fn to_bytes(&self) -> (r: Result<Vec<u8>, Error>)
        ensures
            match r {
                Ok(v) => spec_objects_encodable(self@) && v@ == spec_encode_objects(self@),
                Err(e) => e == Error::SerializationError && !spec_objects_encodable(self@),
            },
    {
        encode_objects(&self.objects)
    }

    /// Parses a wire form back into a stream.
    ///
    /// Fails with [`Error::FileFormat`] when a length prefix is truncated or
    /// overruns the remaining bytes.
    pub fn from_bytes(bytes: &[u8]) -> (r: Result<SizedObjectsBytes, Error>)
        ensures
            match spec_decode_objects(bytes@) {
                Some(objs) => r matches Ok(s) && s@ == objs,
                None => r == Err::<SizedObjectsBytes, Error>(Error::FileFormat),
            },
    {
        match decode_objects(bytes) {
            Ok(objects) => Ok(SizedObjectsBytes { objects }),
            Err(e) => Err(e),
        }
    }
}

} // verus!
