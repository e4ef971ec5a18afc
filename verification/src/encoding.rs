//! Length-prefixed wire encodings.
//!
//! Two layers: a sequence of `u32` dimensions laid out as consecutive
//! little-endian words, and a sequence of byte objects laid out as
//! consecutive `(4-byte little-endian length, payload)` records. Both come
//! with exact decode specifications and round-trip proofs.

use vstd::prelude::*;
use vstd::bytes::{spec_u32_to_le_bytes, spec_u32_from_le_bytes, lemma_auto_spec_u32_to_from_le_bytes, u32_to_le_bytes, u32_from_le_bytes};
use vstd::slice::{slice_subrange, slice_to_vec};
use crate::Error;

verus! {

/// A byte vector's deep view is its view.
pub proof fn lemma_bytes_deep_view(v: Vec<u8>)
    ensures
        v.deep_view() == v@,
{
    assert(v.deep_view() =~= v@);
}

/// Indexing the deep view of a vector of byte vectors.
pub proof fn lemma_byte_vecs_deep_view(v: Vec<Vec<u8>>, k: int)
    requires
        0 <= k < v@.len(),
    ensures
        v.deep_view().len() == v@.len(),
        v.deep_view()[k] == v@[k]@,
{
    assert(v.deep_view()[k] =~= v@[k]@);
}

/// Appends the bytes of `src` to `dst`.
pub fn push_bytes(dst: &mut Vec<u8>, src: &Vec<u8>)
    ensures
        final(dst)@ == old(dst)@ + src@,
{
    let mut k: usize = 0;
    while k < src.len()
        invariant
            0 <= k <= src@.len(),
            dst@ == old(dst)@ + src@.take(k as int),
        decreases src@.len() - k,
    {
        dst.push(src[k]);
        proof {
            assert((old(dst)@ + src@.take(k as int)).push(src@[k as int])
                =~= old(dst)@ + src@.take(k as int + 1));
        }
        k += 1;
    }
    proof {
        assert(src@.take(src@.len() as int) =~= src@);
    }
}

/// An owned copy of a byte vector.
pub fn clone_bytes(src: &Vec<u8>) -> (r: Vec<u8>)
    ensures
        r@ == src@,
{
    let mut out: Vec<u8> = Vec::new();
    push_bytes(&mut out, src);
    out
}

// ---------------------------------------------------------------------------
// Dimension words
// ---------------------------------------------------------------------------

/// The byte layout of a shape: each dimension as a 4-byte little-endian word.
pub open spec fn spec_encode_dims(dims: Seq<u32>) -> Seq<u8>
    decreases dims.len(),
{
    if dims.len() == 0 {
        Seq::empty()
    } else {
        spec_u32_to_le_bytes(dims[0]) + spec_encode_dims(dims.drop_first())
    }
}

/// Parses a shape laid out by [`spec_encode_dims`]; `None` when the byte
/// count is not a multiple of four.
pub open spec fn spec_decode_dims(b: Seq<u8>) -> Option<Seq<u32>>
    decreases b.len(),
{
    if b.len() == 0 {
        Some(Seq::empty())
    } else if b.len() < 4 {
        None
    } else {
        match spec_decode_dims(b.skip(4)) {
            None => None,
            Some(rest) => Some(seq![spec_u32_from_le_bytes(b.take(4))] + rest),
        }
    }
}

/// Decoding inverts encoding for every shape.
pub proof fn lemma_dims_round_trip(dims: Seq<u32>)
    ensures
        spec_decode_dims(spec_encode_dims(dims)) == Some(dims),
    decreases dims.len(),
{
    lemma_auto_spec_u32_to_from_le_bytes();
    if dims.len() == 0 {
        assert(Seq::<u32>::empty() =~= dims);
    } else {
        let head = spec_u32_to_le_bytes(dims[0]);
        let tail = spec_encode_dims(dims.drop_first());
        let b = head + tail;
        assert(b.take(4) =~= head);
        assert(b.skip(4) =~= tail);
        lemma_dims_round_trip(dims.drop_first());
        assert(seq![dims[0]] + dims.drop_first() =~= dims);
    }
}

/// Lays a shape out as bytes, starting at index `i`.
fn encode_dims_from(dims: &Vec<u32>, i: usize) -> (r: Vec<u8>)
    requires
        i <= dims@.len(),
    ensures
        r@ == spec_encode_dims(dims@.skip(i as int)),
    decreases dims@.len() - i,
{
    if i == dims.len() {
        proof {
            assert(dims@.skip(i as int) =~= Seq::<u32>::empty());
        }
        Vec::new()
    } else {
        let mut out = u32_to_le_bytes(dims[i]);
        let mut tail = encode_dims_from(dims, i + 1);
        out.append(&mut tail);
        proof {
            assert(dims@.skip(i as int).drop_first() =~= dims@.skip(i as int + 1));
            assert(dims@.skip(i as int)[0] == dims@[i as int]);
        }
        out
    }
}

/// Lays a shape out as consecutive 4-byte little-endian words.
pub fn encode_dims(dims: &Vec<u32>) -> (r: Vec<u8>)
    ensures
        r@ == spec_encode_dims(dims@),
{
    let r = encode_dims_from(dims, 0);
    proof {
        assert(dims@.skip(0) =~= dims@);
    }
    r
}

/// Parses a shape; fails with [`Error::FileFormat`] when the byte count is
/// not a multiple of four.
pub fn decode_dims(b: &[u8]) -> (r: Result<Vec<u32>, Error>)
    ensures
        match spec_decode_dims(b@) {
            Some(dims) => r matches Ok(v) && v@ == dims,
            None => r == Err::<Vec<u32>, Error>(Error::FileFormat),
        },
    decreases b@.len(),
{
    if b.len() == 0 {
        let v: Vec<u32> = Vec::new();
        proof {
            assert(v@ =~= Seq::<u32>::empty());
        }
        Ok(v)
    } else if b.len() < 4 {
        Err(Error::FileFormat)
    } else {
        let word = u32_from_le_bytes(slice_subrange(b, 0, 4));
        proof {
            assert(b@.subrange(0, 4) =~= b@.take(4));
        }
        let rest = slice_subrange(b, 4, b.len());
        proof {
            assert(rest@ =~= b@.skip(4));
        }
        match decode_dims(rest) {
            Err(e) => Err(e),
            Ok(mut v) => {
                let ghost tail = v@;
                v.insert(0, word);
                proof {
                    assert(v@ =~= seq![spec_u32_from_le_bytes(b@.take(4))] + tail);
                }
                Ok(v)
            }
        }
    }
}

// ---------------------------------------------------------------------------
// Length-prefixed object records
// ---------------------------------------------------------------------------

/// An object fits behind a 4-byte length prefix.
pub open spec fn spec_object_encodable(obj: Seq<u8>) -> bool {
    obj.len() <= u32::MAX
}

/// Every object of the sequence fits behind a 4-byte length prefix.
pub open spec fn spec_objects_encodable(objs: Seq<Seq<u8>>) -> bool {
    forall|i: int| 0 <= i < objs.len() ==> spec_object_encodable(#[trigger] objs[i])
}

/// One record: the payload length as a 4-byte little-endian word, then the
/// payload.
pub open spec fn spec_record(obj: Seq<u8>) -> Seq<u8> {
    spec_u32_to_le_bytes(obj.len() as u32) + obj
}

/// The byte layout of an object stream: its records, in order.
pub open spec fn spec_encode_objects(objs: Seq<Seq<u8>>) -> Seq<u8>
    decreases objs.len(),
{
    if objs.len() == 0 {
        Seq::empty()
    } else {
        spec_record(objs[0]) + spec_encode_objects(objs.drop_first())
    }
}

/// Parses a record stream laid out by [`spec_encode_objects`]; `None` when a
/// length prefix is truncated or overruns the remaining bytes.
pub open spec fn spec_decode_objects(b: Seq<u8>) -> Option<Seq<Seq<u8>>>
    decreases b.len(),
{
    if b.len() == 0 {
        Some(Seq::empty())
    } else if b.len() < 4 {
        None
    } else {
        let n = spec_u32_from_le_bytes(b.take(4)) as int;
        if b.len() < 4 + n {
            None
        } else {
            match spec_decode_objects(b.skip(4 + n)) {
                None => None,
                Some(rest) => Some(seq![b.subrange(4, 4 + n)] + rest),
            }
        }
    }
}

/// Decoding inverts encoding for every encodable object sequence.
pub proof fn lemma_objects_round_trip(objs: Seq<Seq<u8>>)
    requires
        spec_objects_encodable(objs),
    ensures
        spec_decode_objects(spec_encode_objects(objs)) == Some(objs),
    decreases objs.len(),
{
    lemma_auto_spec_u32_to_from_le_bytes();
    if objs.len() == 0 {
        assert(Seq::<Seq<u8>>::empty() =~= objs);
    } else {
        let obj = objs[0];
        let head = spec_u32_to_le_bytes(obj.len() as u32);
        let tail = spec_encode_objects(objs.drop_first());
        let b = spec_record(obj) + tail;
        let n = obj.len() as int;
        assert(b.take(4) =~= head);
        assert(spec_u32_from_le_bytes(b.take(4)) as int == n);
        assert(b.len() >= 4 + n);
        assert(b.subrange(4, 4 + n) =~= obj);
        assert(b.skip(4 + n) =~= tail);
        assert forall|i: int| 0 <= i < objs.drop_first().len()
            implies spec_object_encodable(#[trigger] objs.drop_first()[i]) by {
            assert(objs.drop_first()[i] == objs[i + 1]);
        }
        lemma_objects_round_trip(objs.drop_first());
        assert(seq![obj] + objs.drop_first() =~= objs);
    }
}

/// Lays the objects out as records, starting at index `i`.
fn encode_objects_from(objs: &Vec<Vec<u8>>, i: usize) -> (r: Result<Vec<u8>, Error>)
    requires
        i <= objs@.len(),
    ensures
        match r {
            Ok(v) => spec_objects_encodable(objs.deep_view().skip(i as int))
                && v@ == spec_encode_objects(objs.deep_view().skip(i as int)),
            Err(e) => e == Error::SerializationError
                && !spec_objects_encodable(objs.deep_view().skip(i as int)),
        },
    decreases objs@.len() - i,
{
    proof {
        assert(objs.deep_view().len() == objs@.len());
    }
    let ghost s = objs.deep_view().skip(i as int);
    if i == objs.len() {
        proof {
            assert(s =~= Seq::<Seq<u8>>::empty());
        }
        Ok(Vec::new())
    } else {
        proof {
            lemma_byte_vecs_deep_view(*objs, i as int);
            assert(s[0] == objs@[i as int]@);
        }
        let len = objs[i].len();
        if len > u32::MAX as usize {
            proof {
                assert(!spec_object_encodable(s[0]));
            }
            return Err(Error::SerializationError);
        }
        let mut out = u32_to_le_bytes(len as u32);
        push_bytes(&mut out, &objs[i]);
        match encode_objects_from(objs, i + 1) {
            Err(e) => {
                proof {
                    let s1 = objs.deep_view().skip(i as int + 1);
                    let j = choose|j: int| 0 <= j < s1.len() && !spec_object_encodable(#[trigger] s1[j]);
                    assert(s[j + 1] == s1[j]);
                }
                Err(e)
            }
            Ok(mut tail) => {
                out.append(&mut tail);
                proof {
                    assert(s.drop_first() =~= objs.deep_view().skip(i as int + 1));
                    assert(out@ == spec_record(s[0]) + spec_encode_objects(s.drop_first()));
                    assert forall|j: int| 0 <= j < s.len()
                        implies spec_object_encodable(#[trigger] s[j]) by {
                        if j > 0 {
                            assert(s[j] == s.drop_first()[j - 1]);
                        }
                    }
                }
                Ok(out)
            }
        }
    }
}

/// Lays the objects out as consecutive length-prefixed records.
///
/// Fails with [`Error::SerializationError`] when some object's byte length
/// does not fit the 4-byte prefix.
pub fn encode_objects(objs: &Vec<Vec<u8>>) -> (r: Result<Vec<u8>, Error>)
    ensures
        match r {
            Ok(v) => spec_objects_encodable(objs.deep_view())
                && v@ == spec_encode_objects(objs.deep_view()),
            Err(e) => e == Error::SerializationError && !spec_objects_encodable(objs.deep_view()),
        },
{
    let r = encode_objects_from(objs, 0);
    proof {
        assert(objs.deep_view().skip(0) =~= objs.deep_view());
    }
    r
}

/// Parses a record stream; fails with [`Error::FileFormat`] when a length
/// prefix is truncated or overruns the remaining bytes.
pub fn decode_objects(b: &[u8]) -> (r: Result<Vec<Vec<u8>>, Error>)
    ensures
        match spec_decode_objects(b@) {
            Some(objs) => r matches Ok(v) && v.deep_view() == objs,
            None => r == Err::<Vec<Vec<u8>>, Error>(Error::FileFormat),
        },
    decreases b@.len(),
{
    if b.len() == 0 {
        let v: Vec<Vec<u8>> = Vec::new();
        proof {
            assert(v.deep_view() =~= Seq::<Seq<u8>>::empty());
        }
        Ok(v)
    } else if b.len() < 4 {
        Err(Error::FileFormat)
    } else {
        let word = u32_from_le_bytes(slice_subrange(b, 0, 4));
        proof {
            assert(b@.subrange(0, 4) =~= b@.take(4));
        }
        let n = word as usize;
        if b.len() - 4 < n {
            return Err(Error::FileFormat);
        }
        let obj = slice_to_vec(slice_subrange(b, 4, 4 + n));
        let rest = slice_subrange(b, 4 + n, b.len());
        proof {
            assert(rest@ =~= b@.skip(4 + n as int));
        }
        match decode_objects(rest) {
            Err(e) => Err(e),
            Ok(mut v) => {
                let ghost tail = v.deep_view();
                let ghost oldv = v@;
                let ghost objv = obj@;
                proof {
                    lemma_bytes_deep_view(obj);
                }
                v.insert(0, obj);
                proof {
                    assert forall|k: int| 0 <= k < v.deep_view().len()
                        implies v.deep_view()[k] == (seq![objv] + tail)[k] by {
                        assert(v.deep_view()[k] == v@[k].deep_view());
                        if k > 0 {
                            assert(v@[k] == oldv[k - 1]);
                            assert(tail[k - 1] == oldv[k - 1].deep_view());
                        }
                    }
                    assert(v.deep_view() =~= seq![objv] + tail);
                    assert(objv == b@.subrange(4, 4 + n as int));
                }
                Ok(v)
            }
        }
    }
}

} // verus!
