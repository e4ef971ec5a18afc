//! The checkpoint codec: between a named tensor bank and its archive bytes.
//!
//! An archive is a length-prefixed object stream holding, for every named
//! tensor in order, three objects: the name bytes, the shape words and the
//! element bytes. Decoding rejects malformed streams and duplicate names;
//! decoding an archive this codec wrote yields the original bank bit for
//! bit (see [`lemma_store_round_trip`]).

use vstd::prelude::*;
use crate::Error;
use crate::encoding::{
    spec_encode_dims, spec_decode_dims, spec_encode_objects, spec_decode_objects,
    spec_objects_encodable, encode_objects, decode_objects, encode_dims, decode_dims,
    lemma_dims_round_trip, lemma_objects_round_trip, lemma_bytes_deep_view,
    lemma_byte_vecs_deep_view, clone_bytes,
};
use crate::stream::SizedObjectsBytes;
use crate::tensor::{
    Device, NamedTensor, NamedTensorView, TensorData, TensorView, VarStore, names_unique,
};

verus! {

/// The three archive objects of one named tensor.
pub open spec fn spec_entry_objects_one(e: NamedTensorView) -> Seq<Seq<u8>> {
    seq![e.name, spec_encode_dims(e.tensor.shape), e.tensor.data]
}

/// The archive objects of a tensor bank: three objects per entry, in order.
pub open spec fn spec_entry_objects(entries: Seq<NamedTensorView>) -> Seq<Seq<u8>>
    decreases entries.len(),
{
    if entries.len() == 0 {
        Seq::empty()
    } else {
        spec_entry_objects_one(entries[0]) + spec_entry_objects(entries.drop_first())
    }
}

/// Parses archive objects back into entries; `None` when the object count is
/// not a multiple of three or a shape object is malformed.
pub open spec fn spec_decode_entries(objs: Seq<Seq<u8>>) -> Option<Seq<NamedTensorView>>
    decreases objs.len(),
{
    if objs.len() == 0 {
        Some(Seq::empty())
    } else if objs.len() < 3 {
        None
    } else {
        match spec_decode_dims(objs[1]) {
            None => None,
            Some(dims) => match spec_decode_entries(objs.skip(3)) {
                None => None,
                Some(rest) => Some(
                    seq![(NamedTensorView {
                        name: objs[0],
                        tensor: TensorView { shape: dims, data: objs[2] },
                    })] + rest,
                ),
            },
        }
    }
}

/// The archive bytes of a tensor bank.
pub open spec fn spec_encode_store(entries: Seq<NamedTensorView>) -> Seq<u8> {
    spec_encode_objects(spec_entry_objects(entries))
}

/// Every entry's name, shape and data fit behind 4-byte length prefixes.
pub open spec fn spec_store_encodable(entries: Seq<NamedTensorView>) -> bool {
    spec_objects_encodable(spec_entry_objects(entries))
}

/// Parses archive bytes back into entries; `None` on a malformed stream, a
/// malformed entry or duplicate names.
pub open spec fn spec_decode_store(b: Seq<u8>) -> Option<Seq<NamedTensorView>> {
    match spec_decode_objects(b) {
        None => None,
        Some(objs) => match spec_decode_entries(objs) {
            None => None,
            Some(entries) => if names_unique(entries) {
                Some(entries)
            } else {
                None
            },
        },
    }
}

/// Entry decoding inverts entry encoding.
pub proof fn lemma_entries_round_trip(entries: Seq<NamedTensorView>)
    ensures
        spec_decode_entries(spec_entry_objects(entries)) == Some(entries),
    decreases entries.len(),
{
    if entries.len() == 0 {
        assert(Seq::<NamedTensorView>::empty() =~= entries);
    } else {
        let e = entries[0];
        let head = spec_entry_objects_one(e);
        let tail = spec_entry_objects(entries.drop_first());
        let objs = head + tail;
        assert(objs[0] == e.name);
        assert(objs[1] == spec_encode_dims(e.tensor.shape));
        assert(objs[2] == e.tensor.data);
        lemma_dims_round_trip(e.tensor.shape);
        assert(objs.skip(3) =~= tail);
        lemma_entries_round_trip(entries.drop_first());
        assert(seq![(NamedTensorView {
            name: e.name,
            tensor: TensorView { shape: e.tensor.shape, data: e.tensor.data },
        })] + entries.drop_first() =~= entries);
    }
}

/// Store decoding inverts store encoding, for every encodable bank with
/// unique names: the reconstructed bank holds, name for name, bit-identical
/// tensors.
pub proof fn lemma_store_round_trip(entries: Seq<NamedTensorView>)
    requires
        spec_store_encodable(entries),
        names_unique(entries),
    ensures
        spec_decode_store(spec_encode_store(entries)) == Some(entries),
{
    lemma_objects_round_trip(spec_entry_objects(entries));
    lemma_entries_round_trip(entries);
}

/// Appends the three archive objects of each entry of `store` to `objs`.
fn push_store_objects(store: &VarStore, objs: &mut Vec<Vec<u8>>)
    ensures
        final(objs).deep_view() == old(objs).deep_view() + spec_entry_objects(store@),
{
    let ghost base = objs.deep_view();
    let mut k: usize = 0;
    while k < store.len()
        invariant
            0 <= k <= store@.len(),
            objs.deep_view() == base + spec_entry_objects(store@.take(k as int)),
        decreases store@.len() - k,
    {
        let e = store.entry(k);
        let name = clone_bytes(&e.name);
        let shape = encode_dims(&e.tensor.shape);
        let data = clone_bytes(&e.tensor.data);
        let ghost before = objs.deep_view();
        push_deep(objs, name);
        push_deep(objs, shape);
        push_deep(objs, data);
        proof {
            assert(objs.deep_view() =~= before + spec_entry_objects_one(store@[k as int]));
            lemma_entry_objects_push(store@.take(k as int), store@[k as int]);
            assert(store@.take(k as int).push(store@[k as int]) =~= store@.take(k as int + 1));
            assert(objs.deep_view() =~= base + spec_entry_objects(store@.take(k as int + 1)));
        }
        k += 1;
    }
    proof {
        assert(store@.take(store@.len() as int) =~= store@);
    }
}

/// Pushing one entry at the back appends its three objects.
proof fn lemma_entry_objects_push(s: Seq<NamedTensorView>, x: NamedTensorView)
    ensures
        spec_entry_objects(s.push(x)) == spec_entry_objects(s) + spec_entry_objects_one(x),
    decreases s.len(),
{
    if s.len() == 0 {
        assert(s.push(x)[0] == x);
        assert(s.push(x).drop_first() =~= Seq::<NamedTensorView>::empty());
        assert(spec_entry_objects(Seq::<NamedTensorView>::empty()) == Seq::<Seq<u8>>::empty());
        assert(spec_entry_objects(s.push(x))
            == spec_entry_objects_one(x) + Seq::<Seq<u8>>::empty());
        assert(spec_entry_objects(s.push(x)) =~= spec_entry_objects(s) + spec_entry_objects_one(x));
    } else {
        assert(s.push(x)[0] == s[0]);
        assert(s.push(x).drop_first() =~= s.drop_first().push(x));
        assert(spec_entry_objects(s.push(x))
            == spec_entry_objects_one(s[0]) + spec_entry_objects(s.drop_first().push(x)));
        lemma_entry_objects_push(s.drop_first(), x);
        assert(spec_entry_objects(s.push(x)) =~= spec_entry_objects(s) + spec_entry_objects_one(x));
    }
}

/// Pushes one byte object, tracking the deep view.
fn push_deep(objs: &mut Vec<Vec<u8>>, obj: Vec<u8>)
    ensures
        final(objs).deep_view() == old(objs).deep_view() + seq![obj@],
{
    let ghost oldv = objs@;
    let ghost objv = obj@;
    proof {
        lemma_bytes_deep_view(obj);
    }
    objs.push(obj);
    proof {
        assert forall|k: int| 0 <= k < objs.deep_view().len()
            implies objs.deep_view()[k] == (old(objs).deep_view() + seq![objv])[k] by {
            assert(objs.deep_view()[k] == objs@[k].deep_view());
            if k < oldv.len() {
                assert(objs@[k] == oldv[k]);
            }
        }
        assert(objs.deep_view() =~= old(objs).deep_view() + seq![objv]);
    }
}

/// Lays a tensor bank out as archive bytes.
///
/// Fails with [`Error::SerializationError`] when some name, shape or data
/// object's byte length does not fit the 4-byte prefix.
pub fn encode_store(store: &VarStore) -> (r: Result<Vec<u8>, Error>)
    ensures
        match r {
            Ok(v) => spec_store_encodable(store@) && v@ == spec_encode_store(store@),
            Err(e) => e == Error::SerializationError && !spec_store_encodable(store@),
        },
{
    let mut objs: Vec<Vec<u8>> = Vec::new();
    proof {
        assert(objs.deep_view() =~= Seq::<Seq<u8>>::empty());
    }
    push_store_objects(store, &mut objs);
    proof {
        assert(objs.deep_view() =~= spec_entry_objects(store@));
    }
    encode_objects(&objs)
}

/// Parses archive objects back into named tensors, starting at index `i`.
fn decode_entries(objs: &Vec<Vec<u8>>, i: usize) -> (r: Result<Vec<NamedTensor>, Error>)
    requires
        i <= objs@.len(),
    ensures
        match spec_decode_entries(objs.deep_view().skip(i as int)) {
            Some(es) => r matches Ok(v) && v.deep_view() == es,
            None => r == Err::<Vec<NamedTensor>, Error>(Error::FileFormat),
        },
    decreases objs@.len() - i,
{
    proof {
        assert(objs.deep_view().len() == objs@.len());
    }
    let ghost s = objs.deep_view().skip(i as int);
    if i == objs.len() {
        let v: Vec<NamedTensor> = Vec::new();
        proof {
            assert(s =~= Seq::<Seq<u8>>::empty());
            assert(v.deep_view() =~= Seq::<NamedTensorView>::empty());
        }
        Ok(v)
    } else if objs.len() - i < 3 {
        Err(Error::FileFormat)
    } else {
        proof {
            lemma_byte_vecs_deep_view(*objs, i as int);
            lemma_byte_vecs_deep_view(*objs, i as int + 1);
            lemma_byte_vecs_deep_view(*objs, i as int + 2);
            assert(s[0] == objs@[i as int]@);
            assert(s[1] == objs@[i as int + 1]@);
            assert(s[2] == objs@[i as int + 2]@);
        }
        let dims = match decode_dims(objs[i + 1].as_slice()) {
            Ok(d) => d,
            Err(_) => {
                return Err(Error::FileFormat);
            }
        };
        let name = clone_bytes(&objs[i]);
        let data = clone_bytes(&objs[i + 2]);
        match decode_entries(objs, i + 3) {
            Err(e) => {
                proof {
                    assert(s.skip(3) =~= objs.deep_view().skip(i as int + 3));
                }
                Err(e)
            }
            Ok(mut v) => {
                let ghost tail = v.deep_view();
                let ghost oldv = v@;
                let entry = NamedTensor { name, tensor: TensorData { shape: dims, data } };
                let ghost ev = entry@;
                v.insert(0, entry);
                proof {
                    assert(s.skip(3) =~= objs.deep_view().skip(i as int + 3));
                    assert forall|k: int| 0 <= k < v.deep_view().len()
                        implies v.deep_view()[k] == (seq![ev] + tail)[k] by {
                        assert(v.deep_view()[k] == v@[k].deep_view());
                        if k > 0 {
                            assert(v@[k] == oldv[k - 1]);
                            assert(tail[k - 1] == oldv[k - 1].deep_view());
                        }
                    }
                    assert(v.deep_view() =~= seq![ev] + tail);
                }
                Ok(v)
            }
        }
    }
}

/// Parses archive bytes into a fresh tensor bank pinned to `device`.
///
/// Fails with [`Error::FileFormat`] on a malformed stream, a malformed
/// entry, or duplicate tensor names.
pub fn decode_store(b: &[u8], device: Device) -> (r: Result<VarStore, Error>)
    ensures
        match spec_decode_store(b@) {
            Some(es) => r matches Ok(vs) && vs@ == es && vs.wf() && vs.spec_device() == device,
            None => r == Err::<VarStore, Error>(Error::FileFormat),
        },
{
    let objs = match decode_objects(b) {
        Ok(o) => o,
        Err(e) => {
            return Err(e);
        }
    };
    proof {
        assert(objs.deep_view().skip(0) =~= objs.deep_view());
    }
    let mut entries = match decode_entries(&objs, 0) {
        Ok(v) => v,
        Err(e) => {
            return Err(e);
        }
    };
    let ghost dvobjs = objs.deep_view();
    let ghost es = entries.deep_view();
    let ghost total: int = entries@.len() as int;
    let mut store = VarStore::new(device);
    proof {
        assert(es.take(0) =~= Seq::<NamedTensorView>::empty());
        assert(es.skip(0) =~= es);
    }
    while entries.len() > 0
        invariant
            store.wf(),
            store.spec_device() == device,
            spec_decode_objects(b@) == Some(dvobjs),
            spec_decode_entries(dvobjs) == Some(es),
            es.len() == total,
            entries@.len() <= total,
            entries.deep_view() == es.skip(total - entries@.len() as int),
            store@ == es.take(total - entries@.len() as int),
        decreases entries@.len(),
    {
        let ghost k = total - entries@.len() as int;
        let ghost oldv = entries@;
        let ghost olddv = entries.deep_view();
        let e = entries.remove(0);
        proof {
            assert(olddv == es.skip(k));
            assert(olddv.len() == total - k);
            assert(e == oldv[0]);
            assert(olddv[0] == oldv[0].deep_view());
            assert(es.skip(k)[0] == es[k]);
            assert(e@ == es[k]);
            assert forall|j: int| 0 <= j < entries.deep_view().len()
                implies entries.deep_view()[j] == es.skip(k + 1)[j] by {
                assert(entries.deep_view()[j] == entries@[j].deep_view());
                assert(entries@[j] == oldv[j + 1]);
                assert(olddv[j + 1] == oldv[j + 1].deep_view());
                assert(es.skip(k)[j + 1] == es[k + 1 + j]);
                assert(es.skip(k + 1)[j] == es[k + 1 + j]);
            }
            assert(entries.deep_view() =~= es.skip(k + 1));
        }
        let name_snapshot = e.name;
        let tensor_snapshot = e.tensor;
        match store.load(name_snapshot, tensor_snapshot) {
            Ok(()) => {
                proof {
                    assert(store@ =~= es.take(k + 1)) by {
                        assert(store@ == es.take(k).push(es[k]));
                        assert(es.take(k).push(es[k]) =~= es.take(k + 1));
                    }
                }
            }
            Err(_) => {
                proof {
                    assert(store@ == es.take(k));
                    assert(exists|i: int|
                        0 <= i < es.take(k).len() && es.take(k)[i].name == es[k].name);
                    let i = choose|i: int|
                        0 <= i < es.take(k).len() && es.take(k)[i].name == es[k].name;
                    assert(es.take(k)[i] == es[i]);
                    assert(0 <= i < k < es.len());
                    assert(es[i].name == es[k].name);
                    assert(!names_unique(es));
                    assert(spec_decode_store(b@) is None);
                }
                return Err(Error::FileFormat);
            }
        }
    }
    proof {
        assert(es.take(total) =~= es);
        assert(names_unique(es));
    }
    Ok(store)
}

/// A device-and-graph-independent snapshot of trainable state: named
/// tensors, in store order, with unique names.
pub type CheckPoint = Vec<NamedTensor>;

/// An owned copy of a shape vector.
fn clone_dims(src: &Vec<u32>) -> (r: Vec<u32>)
    ensures
        r@ == src@,
{
    let mut out: Vec<u32> = Vec::new();
    let mut k: usize = 0;
    while k < src.len()
        invariant
            0 <= k <= src@.len(),
            out@ == src@.take(k as int),
        decreases src@.len() - k,
    {
        out.push(src[k]);
        proof {
            assert(src@.take(k as int).push(src@[k as int]) =~= src@.take(k as int + 1));
        }
        k += 1;
    }
    proof {
        assert(src@.take(src@.len() as int) =~= src@);
    }
    out
}

/// Snapshots every named tensor of the store, by value, in store order.
pub fn extract(store: &VarStore) -> (cp: CheckPoint)
    ensures
        cp.deep_view() == store@,
{
    let mut cp: CheckPoint = Vec::new();
    proof {
        assert(cp.deep_view() =~= store@.take(0));
    }
    let mut k: usize = 0;
    while k < store.len()
        invariant
            0 <= k <= store@.len(),
            cp@.len() == k,
            cp.deep_view() == store@.take(k as int),
        decreases store@.len() - k,
    {
        let e = store.entry(k);
        let copy = NamedTensor {
            name: clone_bytes(&e.name),
            tensor: TensorData {
                shape: clone_dims(&e.tensor.shape),
                data: clone_bytes(&e.tensor.data),
            },
        };
        let ghost oldv = cp@;
        cp.push(copy);
        proof {
            assert forall|j: int| 0 <= j < cp.deep_view().len()
                implies cp.deep_view()[j] == store@.take(k as int + 1)[j] by {
                assert(cp.deep_view()[j] == cp@[j].deep_view());
                if j < oldv.len() {
                    assert(cp@[j] == oldv[j]);
                    assert(oldv[j].deep_view() == store@.take(k as int)[j]);
                } else {
                    assert(cp@[j] == copy);
                }
            }
            assert(cp.deep_view() =~= store@.take(k as int + 1));
        }
        k += 1;
    }
    proof {
        assert(store@.take(store@.len() as int) =~= store@);
    }
    cp
}

/// Serializes a checkpoint: rebuilds a scratch CPU store from the named
/// tensors (rejecting duplicate names) and lays its archive out as the one
/// object of a fresh length-prefixed stream.
///
/// Fails with [`Error::SerializationError`] when a name is duplicated or
/// some object's byte length does not fit the 4-byte prefix.
pub fn to_bytes(cp: &CheckPoint) -> (r: Result<SizedObjectsBytes, Error>)
    ensures
        match r {
            Ok(s) => names_unique(cp.deep_view()) && spec_store_encodable(cp.deep_view())
                && s@ == seq![spec_encode_store(cp.deep_view())],
            Err(e) => e == Error::SerializationError
                && !(names_unique(cp.deep_view()) && spec_store_encodable(cp.deep_view())),
        },
{
    let ghost dv = cp.deep_view();
    let mut scratch = VarStore::new(Device::Cpu);
    proof {
        assert(scratch@ =~= dv.take(0));
    }
    let mut k: usize = 0;
    while k < cp.len()
        invariant
            0 <= k <= cp@.len(),
            dv.len() == cp@.len(),
            dv == cp.deep_view(),
            scratch.wf(),
            scratch@ == dv.take(k as int),
        decreases cp@.len() - k,
    {
        proof {
            assert(dv[k as int] == cp@[k as int].deep_view());
        }
        let e = &cp[k];
        let name = clone_bytes(&e.name);
        let tensor = TensorData {
            shape: clone_dims(&e.tensor.shape),
            data: clone_bytes(&e.tensor.data),
        };
        match scratch.load(name, tensor) {
            Ok(()) => {
                proof {
                    assert(scratch@ =~= dv.take(k as int + 1)) by {
                        assert(dv.take(k as int).push(dv[k as int]) =~= dv.take(k as int + 1));
                    }
                }
            }
            Err(_) => {
                proof {
                    let i = choose|i: int|
                        0 <= i < dv.take(k as int).len()
                            && dv.take(k as int)[i].name == dv[k as int].name;
                    assert(dv.take(k as int)[i] == dv[i]);
                    assert(0 <= i < k < dv.len());
                    assert(dv[i].name == dv[k as int].name);
                    assert(!names_unique(dv));
                }
                return Err(Error::SerializationError);
            }
        }
        k += 1;
    }
    proof {
        assert(dv.take(dv.len() as int) =~= dv);
    }
    let archive = match encode_store(&scratch) {
        Ok(b) => b,
        Err(e) => {
            return Err(e);
        }
    };
    let mut stream = SizedObjectsBytes::new();
    let ghost av = archive@;
    stream.append_back(archive);
    proof {
        assert(stream@ =~= seq![av]);
    }
    Ok(stream)
}

/// Round trip at the stream level: serializing a bank with unique names as
/// a one-object stream and loading that stream back reproduces, name for
/// name, bit-identical tensors — exactly what [`to_bytes`] writes and
/// [`to_module`] reads.
pub proof fn lemma_checkpoint_module_round_trip(entries: Seq<NamedTensorView>)
    requires
        names_unique(entries),
        spec_store_encodable(entries),
    ensures
        ({
            let stream = seq![spec_encode_store(entries)];
            stream.len() >= 1 && spec_decode_store(stream[0]) == Some(entries)
        }),
{
    lemma_store_round_trip(entries);
}

/// Rebuilds a module from a checkpoint's serialized stream: the inverse of
/// [`to_bytes`], against a fresh CPU-resident variable store.
///
/// Fails with [`Error::FileFormat`] on an empty or malformed stream.
pub fn to_module(stream: SizedObjectsBytes) -> (r: Result<crate::module::Module, Error>)
    ensures
        stream@.len() == 0 ==> r == Err::<crate::module::Module, Error>(Error::FileFormat),
        stream@.len() >= 1 ==> match spec_decode_store(stream@[0]) {
            Some(es) => (match r {
                Ok(m) => m.spec_store() == es && m.spec_graph() == stream@[0]
                    && m.spec_context() is None && m.spec_device() == Device::Cpu && m.wf(),
                Err(_) => false,
            }),
            None => r == Err::<crate::module::Module, Error>(Error::FileFormat),
        },
{
    crate::module::Module::load_from_bytes(stream)
}

} // verus!
