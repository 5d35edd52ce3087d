use memscan::value::{decode, decode_le, encode, encode_le, Value, ValueKind};

fn round_trip(value: Value) {
    let bytes = encode(value);
    assert_eq!(bytes.len(), value.value_kind().byte_width());
    assert_eq!(decode(value.value_kind(), &bytes), Some(value));
}

#[test]
fn widths_of_the_kinds() {
    assert_eq!(ValueKind::U32.byte_width(), 4);
    assert_eq!(ValueKind::I32.byte_width(), 4);
    assert_eq!(ValueKind::Float32.byte_width(), 4);
    assert_eq!(ValueKind::U64.byte_width(), 8);
    assert_eq!(ValueKind::I64.byte_width(), 8);
    assert_eq!(ValueKind::Float64.byte_width(), 8);
    assert_eq!(ValueKind::Bool.byte_width(), 1);
}

#[test]
fn kinds_of_the_values() {
    assert_eq!(Value::U32(1).value_kind(), ValueKind::U32);
    assert_eq!(Value::U64(1).value_kind(), ValueKind::U64);
    assert_eq!(Value::I32(1).value_kind(), ValueKind::I32);
    assert_eq!(Value::I64(1).value_kind(), ValueKind::I64);
    assert_eq!(Value::Float32(1).value_kind(), ValueKind::Float32);
    assert_eq!(Value::Float64(1).value_kind(), ValueKind::Float64);
    assert_eq!(Value::Bool(true).value_kind(), ValueKind::Bool);
}

#[test]
fn encode_lays_the_lowest_byte_first() {
    assert_eq!(encode(Value::U32(0x1122_3344)), vec![0x44, 0x33, 0x22, 0x11]);
    assert_eq!(
        encode(Value::U64(0x0102_0304_0506_0708)),
        vec![0x08, 0x07, 0x06, 0x05, 0x04, 0x03, 0x02, 0x01]
    );
    assert_eq!(encode(Value::U32(0)), vec![0, 0, 0, 0]);
    assert_eq!(encode(Value::U32(u32::MAX)), vec![0xFF; 4]);
    assert_eq!(encode(Value::U64(u64::MAX)), vec![0xFF; 8]);
    assert_eq!(encode(Value::U64(1)), vec![1, 0, 0, 0, 0, 0, 0, 0]);
}

#[test]
fn encode_holds_negative_numbers_in_twos_complement() {
    assert_eq!(encode(Value::I32(-1)), vec![0xFF, 0xFF, 0xFF, 0xFF]);
    assert_eq!(encode(Value::I32(-2)), vec![0xFE, 0xFF, 0xFF, 0xFF]);
    assert_eq!(encode(Value::I32(i32::MIN)), vec![0x00, 0x00, 0x00, 0x80]);
    assert_eq!(encode(Value::I32(i32::MAX)), vec![0xFF, 0xFF, 0xFF, 0x7F]);
    assert_eq!(encode(Value::I32(-1234)), (-1234i32).to_le_bytes().to_vec());
    assert_eq!(encode(Value::I64(-1)), vec![0xFF; 8]);
    assert_eq!(encode(Value::I64(i64::MIN)), vec![0, 0, 0, 0, 0, 0, 0, 0x80]);
    assert_eq!(
        encode(Value::I64(-81_985_529_216_486_896)),
        (-81_985_529_216_486_896i64).to_le_bytes().to_vec()
    );
}

#[test]
fn encode_of_booleans() {
    assert_eq!(encode(Value::Bool(true)), vec![1]);
    assert_eq!(encode(Value::Bool(false)), vec![0]);
}

#[test]
fn encode_of_floating_point_bits() {
    assert_eq!(encode(Value::Float32(1.5f32.to_bits())), 1.5f32.to_le_bytes().to_vec());
    assert_eq!(encode(Value::Float64((-0.25f64).to_bits())), (-0.25f64).to_le_bytes().to_vec());
}

#[test]
fn decode_reads_the_lowest_byte_first() {
    assert_eq!(decode(ValueKind::U32, &[0x44, 0x33, 0x22, 0x11]), Some(Value::U32(0x1122_3344)));
    assert_eq!(
        decode(ValueKind::U64, &[0x08, 0x07, 0x06, 0x05, 0x04, 0x03, 0x02, 0x01]),
        Some(Value::U64(0x0102_0304_0506_0708))
    );
    assert_eq!(decode(ValueKind::I32, &[0xFE, 0xFF, 0xFF, 0xFF]), Some(Value::I32(-2)));
    assert_eq!(decode(ValueKind::I32, &[0, 0, 0, 0x80]), Some(Value::I32(i32::MIN)));
    assert_eq!(decode(ValueKind::I64, &[0xFF; 8]), Some(Value::I64(-1)));
    assert_eq!(decode(ValueKind::I64, &[0, 0, 0, 0, 0, 0, 0, 0x80]), Some(Value::I64(i64::MIN)));
    assert_eq!(
        decode(ValueKind::Float32, &2.75f32.to_le_bytes()),
        Some(Value::Float32(2.75f32.to_bits()))
    );
    assert_eq!(
        decode(ValueKind::Float64, &1e300f64.to_le_bytes()),
        Some(Value::Float64(1e300f64.to_bits()))
    );
}

#[test]
fn decode_of_booleans() {
    assert_eq!(decode(ValueKind::Bool, &[0]), Some(Value::Bool(false)));
    assert_eq!(decode(ValueKind::Bool, &[1]), Some(Value::Bool(true)));
    assert_eq!(decode(ValueKind::Bool, &[0x80]), Some(Value::Bool(true)));
}

#[test]
fn decode_wants_as_many_bytes_as_the_kind_is_wide() {
    assert_eq!(decode(ValueKind::U32, &[1, 2, 3]), None);
    assert_eq!(decode(ValueKind::U32, &[1, 2, 3, 4, 5]), None);
    assert_eq!(decode(ValueKind::U64, &[1, 2, 3, 4]), None);
    assert_eq!(decode(ValueKind::I64, &[0; 9]), None);
    assert_eq!(decode(ValueKind::Bool, &[]), None);
    assert_eq!(decode(ValueKind::Bool, &[1, 0]), None);
    assert_eq!(decode(ValueKind::Float32, &[0; 8]), None);
}

#[test]
fn written_values_are_read_back() {
    for v in [0u32, 1, 0x7FFF_FFFF, 0x8000_0000, 0xDEAD_BEEF, u32::MAX] {
        round_trip(Value::U32(v));
        round_trip(Value::Float32(v));
    }
    for v in [0u64, 1, 0x7FFF_FFFF_FFFF_FFFF, 0x8000_0000_0000_0000, u64::MAX] {
        round_trip(Value::U64(v));
        round_trip(Value::Float64(v));
    }
    for v in [0i32, 1, -1, 12345, -12345, i32::MIN, i32::MAX] {
        round_trip(Value::I32(v));
    }
    for v in [0i64, 1, -1, 1 << 40, -(1 << 40), i64::MIN, i64::MAX] {
        round_trip(Value::I64(v));
    }
    round_trip(Value::Bool(true));
    round_trip(Value::Bool(false));
}

#[test]
fn written_values_are_read_back_at_any_address() {
    // a byte array stands for memory; one place is aligned, the other is not
    let mut memory = [0u8; 32];
    for address in [8usize, 13] {
        for value in [Value::U32(0xCAFE_F00D), Value::I64(-7), Value::Float64(0.1f64.to_bits())] {
            let bytes = encode(value);
            memory[address..address + bytes.len()].copy_from_slice(&bytes);
            let read = &memory[address..address + value.value_kind().byte_width()];
            assert_eq!(decode(value.value_kind(), read), Some(value));
        }
    }
}

#[test]
fn encode_le_cuts_off_what_does_not_fit() {
    assert_eq!(encode_le(0x0102_0304, 4), vec![4, 3, 2, 1]);
    assert_eq!(encode_le(0x0102_0304, 2), vec![4, 3]);
    assert_eq!(encode_le(0x0102_0304, 0), Vec::<u8>::new());
    assert_eq!(encode_le(0xFF, 3), vec![0xFF, 0, 0]);
    assert_eq!(encode_le(1, 10), vec![1, 0, 0, 0, 0, 0, 0, 0, 0, 0]);
}

#[test]
fn decode_le_reads_up_to_eight_bytes() {
    assert_eq!(decode_le(&[]), 0);
    assert_eq!(decode_le(&[0x34, 0x12]), 0x1234);
    assert_eq!(decode_le(&[1, 0, 0]), 1);
    assert_eq!(decode_le(&[0, 0, 1]), 0x1_0000);
    assert_eq!(decode_le(&[0xFF; 8]), u64::MAX);
    assert_eq!(decode_le(&[0xEF, 0xCD, 0xAB, 0x89, 0x67, 0x45, 0x23, 0x01]), 0x0123_4567_89AB_CDEF);
}
