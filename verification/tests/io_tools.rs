use chariot::bytes::{read_i16, read_sized_str, read_u16, read_u32, read_u8, StreamError};

#[test]
fn test_read_byte() {
    let data = "test".as_bytes();
    let mut pos = 0u64;
    assert_eq!('t' as u8, read_u8(data, &mut pos).unwrap());
    assert_eq!('e' as u8, read_u8(data, &mut pos).unwrap());
    assert_eq!('s' as u8, read_u8(data, &mut pos).unwrap());
    assert_eq!('t' as u8, read_u8(data, &mut pos).unwrap());
}

#[test]
fn test_read_sized_str() {
    let data = "test\0\0\0\0".as_bytes();
    assert_eq!("test".to_string(), read_sized_str(data, &mut 0u64, 8).unwrap());
    assert_eq!("test".to_string(), read_sized_str(data, &mut 0u64, 4).unwrap());
    assert_eq!("te".to_string(), read_sized_str(data, &mut 0u64, 2).unwrap());
    assert_eq!("".to_string(), read_sized_str(data, &mut 0u64, 0).unwrap());
    assert!(read_sized_str(data, &mut 0u64, 9).is_err());
}

#[test]
fn little_endian_integers() {
    let data = [0x34u8, 0x12, 0xFE, 0xFF, 0x78, 0x56, 0x34, 0x12];
    let mut pos = 0u64;
    assert_eq!(0x1234, read_u16(&data, &mut pos).unwrap());
    assert_eq!(-2, read_i16(&data, &mut pos).unwrap());
    assert_eq!(0x12345678, read_u32(&data, &mut pos).unwrap());
    assert_eq!(8, pos);
    assert_eq!(Err(StreamError::UnexpectedEof), read_u8(&data, &mut pos));
}

#[test]
fn sized_str_with_bad_encoding() {
    let data = [0xFFu8, 0xFE, 0, 0];
    assert_eq!(Err(StreamError::InvalidData), read_sized_str(&data, &mut 0u64, 4));
}
