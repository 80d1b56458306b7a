use gltf::json::{
    self, Accessor, Buffer, BufferView, Checked, DataType, Dimensions, Interpolation, Node,
    Property, Root,
};
use gltf::validation::{Field, Segment, Unvalidated, Violation};

fn sound() -> Root {
    Root {
        buffers: vec![Buffer { byte_length: 32, uri: Some("data.bin".to_string()) }],
        buffer_views: vec![
            BufferView { buffer: 0, byte_length: 8, byte_offset: 0, byte_stride: None },
            BufferView { buffer: 0, byte_length: 24, byte_offset: 8, byte_stride: None },
        ],
        accessors: vec![
            Accessor {
                buffer_view: 0,
                byte_offset: 0,
                count: 2,
                component_type: DataType::F32,
                type_: Dimensions::Scalar,
                normalized: false,
                sparse: None,
            },
            Accessor {
                buffer_view: 1,
                byte_offset: 0,
                count: 2,
                component_type: DataType::F32,
                type_: Dimensions::Vec3,
                normalized: false,
                sparse: None,
            },
        ],
        nodes: vec![Node { name: None }],
        animations: vec![json::Animation {
            channels: vec![json::Channel {
                sampler: 0,
                extras: None,
                target: json::Target { node: 0, path: Checked::Valid(Property::Translation), extras: None },
            }],
            samplers: vec![json::Sampler {
                input: 0,
                output: 1,
                interpolation: Checked::Valid(Interpolation::Step),
                extras: None,
            }],
            name: None,
            extras: None,
        }],
        skins: vec![json::Skin {
            joints: vec![0],
            inverse_bind_matrices: None,
            skeleton: None,
            name: None,
            extras: None,
        }],
    }
}

fn report(root: Root, complete: bool) -> Vec<(Vec<Segment>, Violation)> {
    let result = if complete {
        Unvalidated(root).validate_completely()
    } else {
        Unvalidated(root).validate_minimally()
    };
    match result {
        Ok(_) => vec![],
        Err(e) => e.errors().iter().map(|(p, v)| (p.segments.clone(), *v)).collect(),
    }
}

use Field as F;
use Segment::{Field as S, Index as I};

#[test]
fn sound_document_passes_both_passes() {
    assert!(Unvalidated(sound()).validate_minimally().is_ok());
    let g = Unvalidated(sound()).validate_completely().unwrap();
    assert_eq!(g.as_json().accessors.len(), 2);
}

#[test]
fn dangling_buffer_view_is_reported_at_its_path() {
    let mut root = sound();
    root.accessors[1].buffer_view = 7;
    assert_eq!(
        report(root, false),
        vec![(vec![S(F::Accessors), I(1), S(F::BufferView)], Violation::IndexOutOfBounds)]
    );
}

#[test]
fn dangling_node_and_accessor_are_all_reported() {
    let mut root = sound();
    root.animations[0].channels[0].target.node = 3;
    root.animations[0].samplers[0].input = 9;
    root.skins[0].joints = vec![0, 5];
    root.skins[0].skeleton = Some(2);
    assert_eq!(
        report(root, false),
        vec![
            (
                vec![S(F::Animations), I(0), S(F::Channels), I(0), S(F::Target), S(F::Node)],
                Violation::IndexOutOfBounds
            ),
            (vec![S(F::Animations), I(0), S(F::Samplers), I(0), S(F::Input)], Violation::IndexOutOfBounds),
            (vec![S(F::Skins), I(0), S(F::Joints), I(1)], Violation::IndexOutOfBounds),
            (vec![S(F::Skins), I(0), S(F::Skeleton)], Violation::IndexOutOfBounds),
        ]
    );
}

#[test]
fn view_past_buffer_and_accessor_past_view() {
    let mut root = sound();
    root.buffer_views[1].byte_length = 40;
    root.accessors[0].count = 3;
    assert_eq!(
        report(root, false),
        vec![
            (vec![S(F::BufferViews), I(1), S(F::ByteLength)], Violation::ByteLength),
            (vec![S(F::Accessors), I(0), S(F::Count)], Violation::ByteLength),
        ]
    );
}

#[test]
fn stride_below_element_size_is_reported() {
    let mut root = sound();
    root.buffer_views[1].byte_stride = Some(8);
    assert_eq!(
        report(root, false),
        vec![(vec![S(F::Accessors), I(1), S(F::BufferView)], Violation::ByteLength)]
    );
}

#[test]
fn unrecognised_values_are_invalid() {
    let mut root = sound();
    root.animations[0].channels[0].target.path = Checked::Invalid;
    root.animations[0].samplers[0].interpolation = Checked::Invalid;
    assert_eq!(
        report(root, false),
        vec![
            (vec![S(F::Animations), I(0), S(F::Channels), I(0), S(F::Target), S(F::Path)], Violation::Invalid),
            (vec![S(F::Animations), I(0), S(F::Samplers), I(0), S(F::Interpolation)], Violation::Invalid),
        ]
    );
}

#[test]
fn complete_pass_adds_conformance() {
    let mut root = sound();
    root.accessors[1].normalized = true;
    root.accessors[1].component_type = DataType::U32;
    root.accessors[1].type_ = Dimensions::Vec2;
    root.accessors[1].count = 3;
    assert!(Unvalidated(root.clone()).validate_minimally().is_ok());
    assert_eq!(
        report(root, true),
        vec![
            (vec![S(F::Accessors), I(1), S(F::Normalized)], Violation::Conformance),
            (vec![S(F::Animations), I(0), S(F::Channels), I(0), S(F::Sampler)], Violation::Conformance),
        ]
    );
}

#[test]
fn complete_pass_checks_strides_inputs_and_matrices() {
    let mut root = sound();
    root.buffer_views[0].byte_stride = Some(6);
    root.accessors[0].component_type = DataType::U16;
    root.skins[0].inverse_bind_matrices = Some(0);
    assert_eq!(
        report(root, true),
        vec![
            (vec![S(F::BufferViews), I(0), S(F::ByteStride)], Violation::Conformance),
            (vec![S(F::Animations), I(0), S(F::Samplers), I(0), S(F::Input)], Violation::Conformance),
            (vec![S(F::Skins), I(0), S(F::InverseBindMatrices)], Violation::Conformance),
        ]
    );
}

#[test]
fn validation_is_repeatable() {
    let mut root = sound();
    root.accessors[0].buffer_view = 2;
    root.skins[0].inverse_bind_matrices = Some(4);
    let first = report(root.clone(), true);
    let second = report(root, true);
    assert_eq!(first.len(), 2);
    assert_eq!(first, second);
}

#[test]
fn skipping_validation_keeps_document() {
    let mut root = sound();
    root.accessors[0].buffer_view = 2;
    let u = Unvalidated(root);
    assert_eq!(u.as_json().accessors[0].buffer_view, 2);
    let g = u.skip_validation();
    assert_eq!(g.as_json().accessors[0].buffer_view, 2);
}

#[test]
fn error_paths_render_as_text() {
    let mut root = sound();
    root.animations[0].samplers[0].output = 12;
    let err = match Unvalidated(root).validate_minimally() {
        Ok(_) => panic!("expected a failure"),
        Err(e) => e,
    };
    assert_eq!(err.description(), "validation failed");
    let (path, kind) = err.cause().unwrap();
    assert_eq!(*kind, Violation::IndexOutOfBounds);
    assert_eq!(String::from_utf8(path.text_bytes()).unwrap(), "animations[0].samplers[0].output");
}

#[test]
fn multi_digit_indices_render() {
    let path = gltf::validation::Path {
        segments: vec![S(F::Skins), I(0), S(F::Joints), I(1207), S(F::InverseBindMatrices)],
    };
    assert_eq!(
        String::from_utf8(path.text_bytes()).unwrap(),
        "skins[0].joints[1207].inverseBindMatrices"
    );
    let empty = gltf::validation::Path { segments: vec![] };
    assert!(empty.text_bytes().is_empty());
}

#[test]
fn field_names_match_the_format() {
    assert_eq!(F::BufferViews.name(), "bufferViews");
    assert_eq!(F::ByteStride.name(), "byteStride");
    assert_eq!(F::Interpolation.name(), "interpolation");
}

#[test]
fn sparse_count_must_be_below_base_count() {
    let mut root = sound();
    root.accessors[0].sparse = Some(gltf::json::Sparse { count: 2 });
    assert!(Unvalidated(root.clone()).validate_minimally().is_ok());
    assert_eq!(
        report(root.clone(), true),
        vec![(vec![S(F::Accessors), I(0), S(F::Sparse), S(F::Count)], Violation::Conformance)]
    );
    root.accessors[0].sparse = Some(gltf::json::Sparse { count: 1 });
    assert!(Unvalidated(root).validate_completely().is_ok());
}
