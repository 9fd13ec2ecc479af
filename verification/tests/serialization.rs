use snowland::serialization::{BitSerializable, BitSerializableUsizeBuffer};

#[test]
pub fn serialization_preserves_value() {
    let input = usize::MAX / 2;

    let serialized = input.into_buffer();
    let deserialized = usize::from_buffer(&serialized);

    assert_eq!(input, deserialized);
}

#[test]
pub fn buffer_preserves_value() {
    let input = usize::MAX / 4;

    let serialized = input.into_buffer();

    let mut buffer = BitSerializableUsizeBuffer::new();
    assert_eq!(buffer.append(&serialized[..3]), Vec::new());
    assert_eq!(buffer.append(&serialized[3..]), vec![input]);
}

use snowland::serialization::{BitSerializableBuffer, BitSerializableI16Buffer, BitSerializableU32Buffer};

#[test]
fn every_integer_type_round_trips() {
    assert_eq!(u8::from_buffer(&200u8.into_buffer()), 200);
    assert_eq!(i8::from_buffer(&(-100i8).into_buffer()), -100);
    assert_eq!(u16::from_buffer(&0xBEEFu16.into_buffer()), 0xBEEF);
    assert_eq!(i16::from_buffer(&i16::MIN.into_buffer()), i16::MIN);
    assert_eq!(u32::from_buffer(&u32::MAX.into_buffer()), u32::MAX);
    assert_eq!(i32::from_buffer(&(-123_456i32).into_buffer()), -123_456);
    assert_eq!(u64::from_buffer(&0x0102_0304_0506_0708u64.into_buffer()), 0x0102_0304_0506_0708);
    assert_eq!(i64::from_buffer(&i64::MIN.into_buffer()), i64::MIN);
    assert_eq!(u128::from_buffer(&u128::MAX.into_buffer()), u128::MAX);
    assert_eq!(i128::from_buffer(&(-1i128).into_buffer()), -1);
    assert_eq!(usize::from_buffer(&usize::MAX.into_buffer()), usize::MAX);
    assert_eq!(isize::from_buffer(&isize::MIN.into_buffer()), isize::MIN);
}

#[test]
fn integers_are_written_least_significant_byte_first() {
    assert_eq!(0x0102u16.into_buffer(), [0x02, 0x01]);
    assert_eq!((-1i32).into_buffer(), [0xFF, 0xFF, 0xFF, 0xFF]);
    assert_eq!((-2i16).into_buffer(), [0xFE, 0xFF]);
    assert_eq!(0x0A0B_0C0Du32.into_buffer(), [0x0D, 0x0C, 0x0B, 0x0A]);
    assert_eq!(1usize.into_buffer(), [1, 0, 0, 0, 0, 0, 0, 0]);
    assert_eq!(i8::from_buffer(&[0x80]), -128);
}

#[test]
fn decoding_any_bytes_and_encoding_gives_the_bytes_back() {
    let bytes = [0x12, 0xFF, 0x00, 0x80];
    assert_eq!(i32::from_buffer(&bytes).into_buffer(), bytes);
    assert_eq!(u32::from_buffer(&bytes).into_buffer(), bytes);
}

#[test]
fn append_emits_every_complete_value_and_keeps_the_rest() {
    let mut buffer = BitSerializableU32Buffer::new();
    let mut data = Vec::new();
    data.extend_from_slice(&7u32.into_buffer());
    data.extend_from_slice(&0xDEAD_BEEFu32.into_buffer());
    data.extend_from_slice(&[0x01, 0x02]);
    assert_eq!(buffer.append(&data), vec![7, 0xDEAD_BEEF]);
    assert_eq!(buffer.unfilled_len(), 2);
    assert_eq!(buffer.append(&[0x00, 0x00]), vec![0x0201]);
    assert_eq!(buffer.unfilled_len(), 4);
    assert_eq!(buffer.append(&[]), Vec::<u32>::new());
}

#[test]
fn splitting_the_input_does_not_change_the_values() {
    let values = [-5i16, 300, i16::MAX, i16::MIN, 0];
    let mut data = Vec::new();
    for v in values {
        data.extend_from_slice(&v.into_buffer());
    }
    for split in 0..=data.len() {
        let mut buffer = BitSerializableI16Buffer::new();
        let mut out = buffer.append(&data[..split]);
        out.extend(buffer.append(&data[split..]));
        assert_eq!(out, values.to_vec());
    }
}

#[test]
fn read_from_completes_a_value_only_when_all_bytes_arrived() {
    let mut buffer: BitSerializableBuffer<u16, 2> = BitSerializableBuffer::new();
    assert_eq!(buffer.unfilled_len(), 2);
    assert_eq!(buffer.read_from(&[0x34]), None);
    assert_eq!(buffer.unfilled_len(), 1);
    assert_eq!(buffer.read_from(&[]), None);
    assert_eq!(buffer.read_from(&[0x12]), Some(0x1234));
    assert_eq!(buffer.unfilled_len(), 2);
    assert_eq!(buffer.read_from(&[0xCD, 0xAB]), Some(0xABCD));
}

#[test]
fn clear_discards_an_incomplete_value() {
    let mut buffer = BitSerializableU32Buffer::new();
    assert_eq!(buffer.append(&[1, 2, 3]), Vec::<u32>::new());
    buffer.clear();
    assert_eq!(buffer.unfilled_len(), 4);
    assert_eq!(buffer.append(&[4, 0, 0, 0]), vec![4]);
}
