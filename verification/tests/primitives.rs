use bytecode::{Bytecodable, BytecodeError};

#[test]
fn u8_takes_one_byte() {
    assert_eq!(0xabu8.compile(), vec![0xab]);
    assert_eq!(u8::parse(&[0xab]), Ok((0xabu8, 1)));
    assert_eq!(u8::parse(&[0, 9, 9]), Ok((0u8, 1)));
    assert_eq!(u8::parse(&[255]), Ok((255u8, 1)));
}

#[test]
fn u16_is_little_endian() {
    assert_eq!(0x1234u16.compile(), vec![0x34, 0x12]);
    assert_eq!(u16::parse(&[0x34, 0x12, 0xff]), Ok((0x1234u16, 2)));
    assert_eq!(u16::MAX.compile(), vec![0xff, 0xff]);
    assert_eq!(u16::parse(&[0xff, 0xff]), Ok((u16::MAX, 2)));
}

#[test]
fn u32_is_little_endian() {
    assert_eq!(0x55abcdefu32.compile(), vec![0xef, 0xcd, 0xab, 0x55]);
    assert_eq!(u32::parse(&[0x04, 0x03, 0x02, 0x01, 0x99]), Ok((0x01020304u32, 4)));
    assert_eq!(u32::MAX.compile(), vec![0xff; 4]);
}

#[test]
fn u64_is_little_endian() {
    assert_eq!(
        0x0102030405060708u64.compile(),
        vec![0x08, 0x07, 0x06, 0x05, 0x04, 0x03, 0x02, 0x01]
    );
    assert_eq!(
        u64::parse(&[0x08, 0x07, 0x06, 0x05, 0x04, 0x03, 0x02, 0x01, 0x00]),
        Ok((0x0102030405060708u64, 8))
    );
    assert_eq!(u64::MAX.compile(), vec![0xff; 8]);
    assert_eq!(u64::parse(&[0xff; 8]), Ok((u64::MAX, 8)));
}

#[test]
fn i8_uses_twos_complement() {
    assert_eq!((-1i8).compile(), vec![0xff]);
    assert_eq!(i8::MIN.compile(), vec![0x80]);
    assert_eq!(i8::MAX.compile(), vec![0x7f]);
    assert_eq!(i8::parse(&[0xff]), Ok((-1i8, 1)));
    assert_eq!(i8::parse(&[0x80, 1]), Ok((i8::MIN, 1)));
    assert_eq!(i8::parse(&[0x7f]), Ok((i8::MAX, 1)));
}

#[test]
fn i16_uses_twos_complement() {
    assert_eq!((-568i16).compile(), vec![0xc8, 0xfd]);
    assert_eq!(i16::parse(&[0xc8, 0xfd]), Ok((-568i16, 2)));
    assert_eq!(i16::parse(&[0x77, 0x55]), Ok((0x5577i16, 2)));
    assert_eq!(i16::MIN.compile(), vec![0x00, 0x80]);
    assert_eq!(i16::parse(&[0x00, 0x80]), Ok((i16::MIN, 2)));
}

#[test]
fn i32_uses_twos_complement() {
    assert_eq!((-2i32).compile(), vec![0xfe, 0xff, 0xff, 0xff]);
    assert_eq!(i32::parse(&[0xfe, 0xff, 0xff, 0xff]), Ok((-2i32, 4)));
    assert_eq!(i32::MIN.compile(), vec![0, 0, 0, 0x80]);
    assert_eq!(i32::parse(&[0xff, 0xff, 0xff, 0x7f]), Ok((i32::MAX, 4)));
}

#[test]
fn i64_uses_twos_complement() {
    assert_eq!((-1i64).compile(), vec![0xff; 8]);
    assert_eq!(i64::parse(&[0xff; 8]), Ok((-1i64, 8)));
    assert_eq!(i64::MIN.compile(), vec![0, 0, 0, 0, 0, 0, 0, 0x80]);
    assert_eq!(i64::parse(&[0, 0, 0, 0, 0, 0, 0, 0x80]), Ok((i64::MIN, 8)));
    assert_eq!(i64::parse(&[1, 0, 0, 0, 0, 0, 0, 0, 7]), Ok((1i64, 8)));
}

#[test]
fn bool_is_one_byte() {
    assert_eq!(true.compile(), vec![1]);
    assert_eq!(false.compile(), vec![0]);
    assert_eq!(bool::parse(&[0]), Ok((false, 1)));
    assert_eq!(bool::parse(&[1]), Ok((true, 1)));
}

#[test]
fn any_nonzero_byte_is_true() {
    assert_eq!(bool::parse(&[2]), Ok((true, 1)));
    assert_eq!(bool::parse(&[255, 0]), Ok((true, 1)));
}

#[test]
fn short_buffers_are_incomplete() {
    assert_eq!(u8::parse(&[]), Err(BytecodeError::IncompleteInstruction));
    assert_eq!(u16::parse(&[1]), Err(BytecodeError::IncompleteInstruction));
    assert_eq!(u32::parse(&[1, 2, 3]), Err(BytecodeError::IncompleteInstruction));
    assert_eq!(u64::parse(&[1, 2, 3, 4, 5, 6, 7]), Err(BytecodeError::IncompleteInstruction));
    assert_eq!(i8::parse(&[]), Err(BytecodeError::IncompleteInstruction));
    assert_eq!(i16::parse(&[1]), Err(BytecodeError::IncompleteInstruction));
    assert_eq!(i32::parse(&[1, 2, 3]), Err(BytecodeError::IncompleteInstruction));
    assert_eq!(i64::parse(&[1, 2, 3, 4, 5, 6, 7]), Err(BytecodeError::IncompleteInstruction));
    assert_eq!(bool::parse(&[]), Err(BytecodeError::IncompleteInstruction));
}

#[test]
fn primitives_read_back_what_they_wrote() {
    for x in [0u16, 1, 255, 256, 0x1234, 0x8000, u16::MAX] {
        let bytes = x.compile();
        assert_eq!(u16::parse(&bytes), Ok((x, bytes.len())));
    }
    for x in [i32::MIN, -65536, -1, 0, 1, 65535, i32::MAX] {
        let bytes = x.compile();
        assert_eq!(i32::parse(&bytes), Ok((x, bytes.len())));
    }
    for x in [i64::MIN, -1, 0, 1, i64::MAX] {
        let mut bytes = x.compile();
        bytes.extend_from_slice(&[0xde, 0xad]);
        assert_eq!(i64::parse(&bytes), Ok((x, 8)));
    }
}
