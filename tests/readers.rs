use gltf::accessor::{Buffers, DecodeError, ReadError};
use gltf::animation::{Animation, ReadOutputs, Rotations};
use gltf::json::{
    self, Accessor, Buffer, BufferView, Checked, DataType, Dimensions, Interpolation, Node,
    Property, Root,
};
use gltf::skin::{InverseBindMatrices, Skin};

fn floats(values: &[f32]) -> Vec<u8> {
    let mut out = Vec::new();
    for v in values {
        out.extend_from_slice(&v.to_le_bytes());
    }
    out
}

fn as_floats(rows: Vec<Vec<i64>>) -> Vec<Vec<f32>> {
    rows.into_iter().map(|r| r.into_iter().map(|c| f32::from_bits(c as u32)).collect()).collect()
}

/// One buffer: two keyframe times, then the output bytes `out`.
fn document(property: Property, out_type: DataType, out_dims: Dimensions, out: &[u8]) -> (Root, Vec<u8>) {
    let mut bytes = floats(&[0.0, 1.0]);
    bytes.extend_from_slice(out);
    let root = Root {
        buffers: vec![Buffer { byte_length: bytes.len(), uri: None }],
        buffer_views: vec![
            BufferView { buffer: 0, byte_length: 8, byte_offset: 0, byte_stride: None },
            BufferView { buffer: 0, byte_length: out.len(), byte_offset: 8, byte_stride: None },
        ],
        accessors: vec![
            Accessor {
                buffer_view: 0,
                byte_offset: 0,
                count: 2,
                component_type: DataType::F32,
                type_: Dimensions::Scalar,
                normalized: false,
                sparse: None,
            },
            Accessor {
                buffer_view: 1,
                byte_offset: 0,
                count: 2,
                component_type: out_type,
                type_: out_dims,
                normalized: false,
                sparse: None,
            },
        ],
        nodes: vec![Node { name: Some("root".to_string()) }],
        animations: vec![json::Animation {
            channels: vec![json::Channel {
                sampler: 0,
                extras: None,
                target: json::Target { node: 0, path: Checked::Valid(property), extras: None },
            }],
            samplers: vec![json::Sampler {
                input: 0,
                output: 1,
                interpolation: Checked::Valid(Interpolation::Linear),
                extras: None,
            }],
            name: Some("walk".to_string()),
            extras: None,
        }],
        skins: vec![],
    };
    (root, bytes)
}

#[test]
fn translation_channel_end_to_end() {
    let out = floats(&[0.0, 0.0, 0.0, 1.0, 1.0, 1.0]);
    let (root, bytes) = document(Property::Translation, DataType::F32, Dimensions::Vec3, &out);
    let anim = Animation::new(&root, 0);
    let channels = anim.channels();
    assert_eq!(channels.len(), 1);
    let reader = channels[0].reader(Buffers { data: vec![Some(bytes)] });
    let inputs = reader.read_inputs().unwrap();
    assert_eq!(as_floats(inputs.to_vec()), vec![vec![0.0], vec![1.0]]);
    match reader.read_outputs().unwrap() {
        ReadOutputs::Translations(it) => {
            assert_eq!(as_floats(it.to_vec()), vec![vec![0.0, 0.0, 0.0], vec![1.0, 1.0, 1.0]]);
        },
        other => panic!("expected translations, got {:?}", other),
    }
}

#[test]
fn i8_rotation_reads_as_i8_variant() {
    let out: Vec<u8> = vec![0, 0, 0, 127, 0x81, 0, 0, 0];
    let (root, bytes) = document(Property::Rotation, DataType::I8, Dimensions::Vec4, &out);
    let anim = Animation::new(&root, 0);
    let reader = anim.channels()[0].reader(Buffers { data: vec![Some(bytes)] });
    match reader.read_outputs().unwrap() {
        ReadOutputs::Rotations(Rotations::I8(it)) => {
            assert_eq!(it.to_vec(), vec![vec![0, 0, 0, 127], vec![-127, 0, 0, 0]]);
        },
        other => panic!("expected I8 rotations, got {:?}", other),
    }
}

#[test]
fn u32_rotation_is_unsupported() {
    let out: Vec<u8> = vec![0; 32];
    let (root, bytes) = document(Property::Rotation, DataType::U32, Dimensions::Vec4, &out);
    let anim = Animation::new(&root, 0);
    let reader = anim.channels()[0].reader(Buffers { data: vec![Some(bytes)] });
    assert_eq!(reader.read_outputs().unwrap_err(), ReadError::Unsupported);
}

#[test]
fn morph_weights_keep_component_type() {
    let out: Vec<u8> = vec![0, 0, 0xff, 0xff];
    let (root, bytes) = document(Property::MorphTargetWeights, DataType::U16, Dimensions::Scalar, &out);
    let reader = Animation::new(&root, 0).channels()[0].reader(Buffers { data: vec![Some(bytes)] });
    match reader.read_outputs().unwrap() {
        ReadOutputs::MorphTargetWeights(gltf::animation::MorphTargetWeights::U16(it)) => {
            assert_eq!(it.to_vec(), vec![vec![0], vec![65535]]);
        },
        other => panic!("expected U16 weights, got {:?}", other),
    }
}

#[test]
fn missing_buffer_is_unresolved() {
    let out = floats(&[0.0; 6]);
    let (root, _) = document(Property::Scale, DataType::F32, Dimensions::Vec3, &out);
    let reader = Animation::new(&root, 0).channels()[0].reader(Buffers { data: vec![None] });
    assert_eq!(reader.read_inputs().unwrap_err(), ReadError::Unresolved);
    assert_eq!(reader.read_outputs().unwrap_err(), ReadError::Unresolved);
}

#[test]
fn short_buffer_fails_at_construction() {
    let out = floats(&[0.0; 6]);
    let (root, bytes) = document(Property::Scale, DataType::F32, Dimensions::Vec3, &out);
    let short = bytes[..20].to_vec();
    let reader = Animation::new(&root, 0).channels()[0].reader(Buffers { data: vec![Some(short)] });
    assert!(reader.read_inputs().is_ok());
    assert_eq!(reader.read_outputs().unwrap_err(), ReadError::Decode(DecodeError::ShortSlice));
}

#[test]
fn dangling_sampler_is_reported_by_reader() {
    let out = floats(&[0.0; 6]);
    let (mut root, bytes) = document(Property::Scale, DataType::F32, Dimensions::Vec3, &out);
    root.animations[0].channels[0].sampler = 4;
    let reader = Animation::new(&root, 0).channels()[0].reader(Buffers { data: vec![Some(bytes)] });
    assert_eq!(reader.read_inputs().unwrap_err(), ReadError::Dangling);
    assert_eq!(reader.read_outputs().unwrap_err(), ReadError::Dangling);
}

#[test]
fn channel_views_follow_records() {
    let out = floats(&[0.0; 6]);
    let (root, _) = document(Property::Scale, DataType::F32, Dimensions::Vec3, &out);
    let anim = Animation::new(&root, 0);
    assert_eq!(anim.index(), 0);
    assert_eq!(anim.name().as_deref(), Some("walk"));
    let channel = anim.channels()[0];
    assert_eq!(channel.target().property(), Property::Scale);
    assert_eq!(channel.target().node().name.as_deref(), Some("root"));
    let sampler = channel.sampler();
    assert_eq!(sampler.interpolation(), Interpolation::Linear);
    assert_eq!(sampler.input().count, 2);
    assert_eq!(sampler.output().type_, Dimensions::Vec3);
    assert_eq!(anim.samplers().len(), 1);
    assert!(anim.extras().is_none());
    assert!(channel.extras().is_none());
    assert!(channel.target().extras().is_none());
    assert!(sampler.extras().is_none());
    assert_eq!(channel.animation().index(), 0);
}

fn skinned(ibm: Option<usize>, bytes: &[u8]) -> Root {
    Root {
        buffers: vec![Buffer { byte_length: bytes.len(), uri: None }],
        buffer_views: vec![BufferView { buffer: 0, byte_length: bytes.len(), byte_offset: 0, byte_stride: None }],
        accessors: vec![Accessor {
            buffer_view: 0,
            byte_offset: 0,
            count: 1,
            component_type: DataType::F32,
            type_: Dimensions::Mat4,
            normalized: false,
            sparse: None,
        }],
        nodes: vec![Node { name: Some("hip".to_string()) }, Node { name: Some("knee".to_string()) }],
        animations: vec![],
        skins: vec![json::Skin {
            joints: vec![1, 0],
            inverse_bind_matrices: ibm,
            skeleton: Some(0),
            name: None,
            extras: Some("{\"rig\":1}".to_string()),
        }],
    }
}

fn identity() -> Vec<u8> {
    floats(&[1.0, 0.0, 0.0, 0.0, 0.0, 1.0, 0.0, 0.0, 0.0, 0.0, 1.0, 0.0, 0.0, 0.0, 0.0, 1.0])
}

#[test]
fn skin_without_matrices_is_not_a_resolver_miss() {
    let root = skinned(None, &identity());
    let skin = Skin::new(&root, 0);
    let missing = skin.reader(Buffers { data: vec![None] });
    assert!(matches!(missing.read_inverse_bind_matrices(), Ok(InverseBindMatrices::NoAccessor)));
    let with = skinned(Some(0), &identity());
    let reader = Skin::new(&with, 0).reader(Buffers { data: vec![None] });
    assert_eq!(reader.read_inverse_bind_matrices().unwrap_err(), ReadError::Unresolved);
}

#[test]
fn skin_matrices_decode() {
    let bytes = identity();
    let root = skinned(Some(0), &bytes);
    let reader = Skin::new(&root, 0).reader(Buffers { data: vec![Some(bytes)] });
    match reader.read_inverse_bind_matrices().unwrap() {
        InverseBindMatrices::Data(it) => {
            let m = as_floats(it.to_vec());
            assert_eq!(m.len(), 1);
            assert_eq!(m[0][0], 1.0);
            assert_eq!(m[0][1], 0.0);
            assert_eq!(m[0][5], 1.0);
            assert_eq!(m[0][15], 1.0);
        },
        InverseBindMatrices::NoAccessor => panic!("expected matrices"),
    }
}

#[test]
fn skin_joints_in_order() {
    let root = skinned(None, &identity());
    let skin = Skin::new(&root, 0);
    let mut joints = skin.joints();
    assert_eq!(joints.next().unwrap().name.as_deref(), Some("knee"));
    assert_eq!(joints.next().unwrap().name.as_deref(), Some("hip"));
    assert!(joints.next().is_none());
    assert_eq!(skin.skeleton().unwrap().name.as_deref(), Some("hip"));
    assert_eq!(skin.index(), 0);
    assert_eq!(skin.extras().as_deref(), Some("{\"rig\":1}"));
    assert!(skin.name().is_none());
    assert!(skin.inverse_bind_matrices().is_none());
}

#[test]
fn readers_ask_for_their_own_buffer() {
    let out = floats(&[0.0, 0.0, 0.0, 2.0, 2.0, 2.0]);
    let (mut root, bytes) = document(Property::Translation, DataType::F32, Dimensions::Vec3, &out);
    // keyframe times move to a second buffer; the first one cannot be loaded
    root.buffers.push(Buffer { byte_length: 8, uri: None });
    root.buffer_views[0].buffer = 1;
    let times = floats(&[0.5, 1.5]);
    let anim = Animation::new(&root, 0);
    let reader = anim.channels()[0].reader(Buffers { data: vec![None, Some(times)] });
    assert_eq!(reader.input_buffer(), 1);
    assert_eq!(reader.output_buffer(), 0);
    assert_eq!(as_floats(reader.read_inputs().unwrap().to_vec()), vec![vec![0.5], vec![1.5]]);
    assert_eq!(reader.read_outputs().unwrap_err(), ReadError::Unresolved);
    let full = anim.channels()[0].reader(Buffers { data: vec![Some(bytes), Some(floats(&[0.5, 1.5]))] });
    match full.read_outputs().unwrap() {
        ReadOutputs::Translations(it) => {
            assert_eq!(as_floats(it.to_vec()), vec![vec![0.0, 0.0, 0.0], vec![2.0, 2.0, 2.0]]);
        },
        other => panic!("expected translations, got {:?}", other),
    }
}

#[test]
fn skin_reader_asks_for_the_matrices_buffer() {
    let bytes = identity();
    let mut root = skinned(Some(0), &bytes);
    root.buffers.insert(0, Buffer { byte_length: 0, uri: None });
    root.buffer_views[0].buffer = 1;
    let skin = Skin::new(&root, 0);
    assert_eq!(skin.matrices_buffer(), 1);
    let reader = skin.reader(Buffers { data: vec![None, Some(bytes)] });
    assert!(matches!(reader.read_inverse_bind_matrices(), Ok(InverseBindMatrices::Data(_))));
}

#[test]
fn repeated_reads_agree() {
    let out = floats(&[0.0, 0.0, 0.0, 1.0, 1.0, 1.0]);
    let (root, bytes) = document(Property::Scale, DataType::F32, Dimensions::Vec3, &out);
    let reader = Animation::new(&root, 0).channels()[0].reader(Buffers { data: vec![Some(bytes)] });
    let (a, b) = (reader.read_outputs().unwrap(), reader.read_outputs().unwrap());
    match (a, b) {
        (ReadOutputs::Scales(x), ReadOutputs::Scales(y)) => {
            let first = x.to_vec();
            assert_eq!(first, y.to_vec());
            assert_eq!(first, x.to_vec());
        },
        other => panic!("expected scales twice, got {:?}", other),
    }
}
