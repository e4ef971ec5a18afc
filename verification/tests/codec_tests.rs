use bastionai_learning::codec::{extract, to_bytes, to_module, CheckPoint};
use bastionai_learning::encoding::encode_objects;
use bastionai_learning::module::Module;
use bastionai_learning::stream::SizedObjectsBytes;
use bastionai_learning::tensor::{Device, NamedTensor, TensorData, VarStore};
use bastionai_learning::Error;

fn named(name: &str, shape: Vec<u32>, data: Vec<u8>) -> NamedTensor {
    NamedTensor {
        name: name.as_bytes().to_vec(),
        tensor: TensorData { shape, data },
    }
}

fn sample_store() -> VarStore {
    let mut vs = VarStore::new(Device::Cpu);
    vs.load(b"weight".to_vec(), TensorData { shape: vec![2, 3], data: vec![1, 2, 3, 4, 5, 6] })
        .expect("fresh name loads");
    vs.load(b"bias".to_vec(), TensorData { shape: vec![3], data: vec![7, 8, 9] })
        .expect("fresh name loads");
    vs.load(b"scale".to_vec(), TensorData { shape: Vec::new(), data: vec![255] })
        .expect("fresh name loads");
    vs
}

#[test]
fn stream_round_trips_through_its_wire_form() {
    let mut s = SizedObjectsBytes::new();
    s.append_back(b"alpha".to_vec());
    s.append_back(Vec::new());
    s.append_back(vec![0, 255, 7]);
    let wire = s.to_bytes().expect("small objects are encodable");
    // Each record is a 4-byte little-endian length, then the payload.
    assert_eq!(wire[0..4], [5, 0, 0, 0]);
    assert_eq!(&wire[4..9], b"alpha");
    assert_eq!(wire[9..13], [0, 0, 0, 0]);
    let mut back = SizedObjectsBytes::from_bytes(&wire).expect("own wire form parses");
    assert_eq!(back.len(), 3);
    assert_eq!(back.next(), Some(b"alpha".to_vec()));
    assert_eq!(back.next(), Some(Vec::new()));
    assert_eq!(back.next(), Some(vec![0, 255, 7]));
    assert_eq!(back.next(), None);
}

#[test]
fn truncated_wire_forms_are_rejected() {
    // A bare 3-byte prefix cannot hold a length word.
    assert_eq!(SizedObjectsBytes::from_bytes(&[1, 0, 0]).err(), Some(Error::FileFormat));
    // A record announcing five payload bytes but carrying two.
    assert_eq!(
        SizedObjectsBytes::from_bytes(&[5, 0, 0, 0, 1, 2]).err(),
        Some(Error::FileFormat)
    );
    // An empty wire form is a valid stream of zero objects.
    let empty = SizedObjectsBytes::from_bytes(&[]).expect("zero records parse");
    assert_eq!(empty.len(), 0);
}

#[test]
fn zero_object_stream_never_builds_a_module() {
    let r = Module::load_from_bytes(SizedObjectsBytes::new());
    assert_eq!(r.err(), Some(Error::FileFormat));
}

#[test]
fn one_valid_object_builds_a_module_with_unset_context() {
    // A stream holding exactly one valid archive object loads; the privacy
    // context starts unset and an input-free forward leaves it so.
    let mut stream = SizedObjectsBytes::new();
    stream.append_back(Vec::new());
    let m = Module::load_from_bytes(stream).expect("one valid object loads");
    assert_eq!(m.store().len(), 0);
    assert_eq!(*m.dp_context(), None);
    let f = m.forward_fn();
    let mut m = m;
    let pass = f.forward(m.dp_context_mut(), Vec::new()).expect("zero-input forward");
    assert_eq!(pass.inputs.len(), 0);
    assert_eq!(*m.dp_context(), None);
}

#[test]
fn checkpoint_round_trip_is_bit_identical_per_name() {
    let vs = sample_store();
    let cp = extract(&vs);
    let stream = to_bytes(&cp).expect("unique small tensors serialize");
    let m = to_module(stream).expect("own archive loads");
    let rebuilt = m.store();
    assert_eq!(rebuilt.len(), 3);
    for name in [&b"weight"[..], &b"bias"[..], &b"scale"[..]] {
        let original = vs.get(&name.to_vec()).expect("name present before");
        let restored = rebuilt.get(&name.to_vec()).expect("name present after");
        assert_eq!(original, restored);
    }
    assert_eq!(m.store().get(&b"weight".to_vec()).unwrap().data, vec![1, 2, 3, 4, 5, 6]);
}

#[test]
fn extract_snapshots_every_entry_in_order() {
    let vs = sample_store();
    let cp = extract(&vs);
    assert_eq!(cp.len(), 3);
    assert_eq!(cp[0], named("weight", vec![2, 3], vec![1, 2, 3, 4, 5, 6]));
    assert_eq!(cp[1], named("bias", vec![3], vec![7, 8, 9]));
    assert_eq!(cp[2], named("scale", Vec::new(), vec![255]));
}

#[test]
fn duplicate_checkpoint_names_fail_serialization() {
    let cp: CheckPoint = vec![
        named("w", vec![1], vec![1]),
        named("w", vec![1], vec![2]),
    ];
    assert_eq!(to_bytes(&cp).err(), Some(Error::SerializationError));
}

#[test]
fn duplicate_archive_names_fail_loading() {
    let objects = vec![
        b"w".to_vec(),
        vec![1, 0, 0, 0],
        vec![9],
        b"w".to_vec(),
        vec![2, 0, 0, 0],
        vec![8],
    ];
    let archive = encode_objects(&objects).expect("small objects encode");
    let mut stream = SizedObjectsBytes::new();
    stream.append_back(archive);
    assert_eq!(Module::load_from_bytes(stream).err(), Some(Error::FileFormat));
}

#[test]
fn malformed_archives_fail_loading() {
    // An object count that is not a multiple of three.
    let objects = vec![b"w".to_vec(), vec![1, 0, 0, 0]];
    let archive = encode_objects(&objects).expect("small objects encode");
    let mut stream = SizedObjectsBytes::new();
    stream.append_back(archive);
    assert_eq!(Module::load_from_bytes(stream).err(), Some(Error::FileFormat));

    // A shape object whose byte count is not a multiple of four.
    let objects = vec![b"w".to_vec(), vec![1, 0, 0], vec![9]];
    let archive = encode_objects(&objects).expect("small objects encode");
    let mut stream = SizedObjectsBytes::new();
    stream.append_back(archive);
    assert_eq!(Module::load_from_bytes(stream).err(), Some(Error::FileFormat));
}

#[test]
fn store_rejects_duplicate_names_and_finds_entries() {
    let mut vs = sample_store();
    let r = vs.load(b"weight".to_vec(), TensorData { shape: vec![1], data: vec![0] });
    assert_eq!(r, Err(Error::SerializationError));
    assert_eq!(vs.len(), 3);
    assert!(vs.get(&b"nothing".to_vec()).is_none());
    let bias = vs.get(&b"bias".to_vec()).expect("bias is present");
    assert_eq!(bias.shape, vec![3]);
    assert_eq!(bias.batch_size(), Ok(3));
    let scale = vs.get(&b"scale".to_vec()).expect("scale is present");
    assert_eq!(scale.batch_size(), Err(Error::GraphError));
}

#[test]
fn module_save_and_reload_keeps_every_tensor() {
    let vs = sample_store();
    let cp = extract(&vs);
    let stream = to_bytes(&cp).expect("serializes");
    let m = to_module(stream).expect("loads");
    let saved = m.save_to_stream().expect("a loaded store serializes again");
    let m2 = Module::load_from_bytes(saved).expect("own stream loads");
    for name in [&b"weight"[..], &b"bias"[..], &b"scale"[..]] {
        assert_eq!(
            m.store().get(&name.to_vec()).expect("present"),
            m2.store().get(&name.to_vec()).expect("present"),
        );
    }
}

#[test]
fn single_object_load_matches_stream_load() {
    let vs = sample_store();
    let cp = extract(&vs);
    let mut stream = to_bytes(&cp).expect("serializes");
    let archive = stream.next().expect("one object");
    let m = Module::load_from_object(archive).expect("archive object loads");
    assert_eq!(m.store().len(), 3);
    assert_eq!(*m.dp_context(), None);
    assert_eq!(
        m.store().get(&b"bias".to_vec()).expect("present").data,
        vec![7, 8, 9]
    );
    assert_eq!(
        Module::load_from_object(vec![1, 2]).err(),
        Some(Error::FileFormat)
    );
}

#[test]
fn set_device_moves_the_store_only() {
    let mut stream = SizedObjectsBytes::new();
    stream.append_back(Vec::new());
    let mut m = Module::load_from_bytes(stream).expect("loads");
    m.set_device(Device::Cuda(0));
    assert_eq!(*m.dp_context(), None);
    assert_eq!(m.store().len(), 0);
}
