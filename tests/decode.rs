use gltf::accessor::{decode_component, normalize, DecodeError, Fraction, Iter};
use gltf::json::{Accessor, BufferView, DataType, Dimensions};

fn ratio(f: Fraction) -> f32 {
    f.num as f32 / f.den as f32
}

fn accessor(count: usize, t: DataType, d: Dimensions) -> Accessor {
    Accessor {
        buffer_view: 0,
        byte_offset: 0,
        count,
        component_type: t,
        type_: d,
        normalized: false,
        sparse: None,
    }
}

fn view(offset: usize, length: usize, stride: Option<usize>) -> BufferView {
    BufferView { buffer: 0, byte_length: length, byte_offset: offset, byte_stride: stride }
}

#[test]
fn u16_normalized_extremes() {
    let c = decode_component(DataType::U16, &[0xff, 0xff], 0);
    assert_eq!(c, 65535);
    assert_eq!(ratio(normalize(DataType::U16, c).unwrap()), 1.0);
    let z = decode_component(DataType::U16, &[0x00, 0x00], 0);
    assert_eq!(z, 0);
    assert_eq!(ratio(normalize(DataType::U16, z).unwrap()), 0.0);
}

#[test]
fn u8_normalized_extremes() {
    assert_eq!(ratio(normalize(DataType::U8, decode_component(DataType::U8, &[0xff], 0)).unwrap()), 1.0);
    assert_eq!(ratio(normalize(DataType::U8, decode_component(DataType::U8, &[0], 0)).unwrap()), 0.0);
}

#[test]
fn i8_normalized_extremes() {
    assert_eq!(decode_component(DataType::I8, &[0x80], 0), -128);
    assert_eq!(ratio(normalize(DataType::I8, -128).unwrap()), -1.0);
    assert_eq!(ratio(normalize(DataType::I8, -127).unwrap()), -1.0);
    assert_eq!(ratio(normalize(DataType::I8, decode_component(DataType::I8, &[0x7f], 0)).unwrap()), 1.0);
    assert_eq!(normalize(DataType::I8, -64), Some(Fraction { num: -64, den: 127 }));
}

#[test]
fn i16_normalized_extremes() {
    let c = decode_component(DataType::I16, &[0x00, 0x80], 0);
    assert_eq!(c, -32768);
    assert_eq!(ratio(normalize(DataType::I16, c).unwrap()), -1.0);
    let m = decode_component(DataType::I16, &[0xff, 0x7f], 0);
    assert_eq!(m, 32767);
    assert_eq!(ratio(normalize(DataType::I16, m).unwrap()), 1.0);
}

#[test]
fn float_components_are_read_by_bits() {
    let b = 1.5f32.to_le_bytes();
    let bits = decode_component(DataType::F32, &b, 0);
    assert_eq!(f32::from_bits(bits as u32), 1.5);
    assert_eq!(normalize(DataType::F32, bits), None);
    assert_eq!(normalize(DataType::U32, 7), None);
    assert_eq!(decode_component(DataType::U32, &[1, 2, 3, 4], 0), 0x04030201);
}

#[test]
fn strided_length_equals_count() {
    // three u8 vec2 elements interleaved with two bytes of padding each
    let data: Vec<u8> = vec![9, 9, 1, 2, 0, 0, 3, 4, 0, 0, 5, 6];
    let a = accessor(3, DataType::U8, Dimensions::Vec2);
    let it = Iter::new(a, view(2, 10, Some(4)), &data).unwrap();
    assert_eq!(it.len(), 3);
    assert_eq!(it.to_vec(), vec![vec![1, 2], vec![3, 4], vec![5, 6]]);
    assert_eq!(it.get(1), vec![3, 4]);
}

#[test]
fn empty_accessor_has_no_elements() {
    let data: Vec<u8> = vec![];
    let it = Iter::new(accessor(0, DataType::F32, Dimensions::Vec3), view(0, 0, None), &data).unwrap();
    assert_eq!(it.len(), 0);
    assert!(it.to_vec().is_empty());
}

#[test]
fn decoding_twice_gives_same_elements() {
    let data: Vec<u8> = vec![1, 0, 2, 0, 0xff, 0xff];
    let a = accessor(3, DataType::I16, Dimensions::Scalar);
    let first = Iter::new(a, view(0, 6, None), &data).unwrap();
    let second = Iter::new(a, view(0, 6, None), &data).unwrap();
    assert_eq!(first.to_vec(), second.to_vec());
    assert_eq!(first.to_vec(), vec![vec![1], vec![2], vec![-1]]);
    assert_eq!(first.to_vec(), first.to_vec());
}

#[test]
fn accessor_past_its_view_is_refused() {
    let data: Vec<u8> = vec![0; 16];
    let a = accessor(3, DataType::F32, Dimensions::Scalar);
    assert_eq!(Iter::new(a, view(0, 8, None), &data).unwrap_err(), DecodeError::OutsideView);
}

#[test]
fn short_slice_is_refused() {
    let data: Vec<u8> = vec![0; 8];
    let a = accessor(3, DataType::F32, Dimensions::Scalar);
    assert_eq!(Iter::new(a, view(0, 12, None), &data).unwrap_err(), DecodeError::ShortSlice);
}

#[test]
fn normalized_elements_are_rescaled() {
    let data: Vec<u8> = vec![255, 0, 128, 51];
    let mut a = accessor(2, DataType::U8, Dimensions::Vec2);
    a.normalized = true;
    let it = Iter::new(a, view(0, 4, None), &data).unwrap();
    let first: Vec<f32> = it.get_normalized(0).unwrap().into_iter().map(ratio).collect();
    assert_eq!(first, vec![1.0, 0.0]);
    assert_eq!(it.get_normalized(1).unwrap()[1], Fraction { num: 51, den: 255 });
    a.normalized = false;
    let plain = Iter::new(a, view(0, 4, None), &data).unwrap();
    assert!(plain.get_normalized(0).is_none());
    assert_eq!(plain.accessor().count, 2);
}
