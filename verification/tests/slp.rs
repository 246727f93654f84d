use chariot::file_formats::slp::{SlpError, SlpFile, SlpHeader, SlpInvalidReason};
use chariot::slp::{SlpError as OldSlpError, SlpHeader as OldSlpHeader};

fn header_bytes(version: &str, shapes: u32) -> Vec<u8> {
    let mut data = version.as_bytes().to_vec();
    data.extend_from_slice(&shapes.to_le_bytes());
    data.extend_from_slice(b"test");
    data.extend_from_slice(&[0u8; 20]);
    data
}

#[test]
fn test_slp_header_read_from_file() {
    let data = "2.0N\x04\0\0\0test\0\0\0\0\0\0\0\0\0\0\0\0\0\0\0\0\0\0\0\0".as_bytes();
    let result = SlpHeader::read_from_file(data, &mut 0u64);
    match result {
        Ok(slp_header) => assert_eq!(4u32, slp_header.shape_count),
        Err(e) => panic!("unexpected error: {:?}", e),
    }
}

#[test]
fn test_slp_header_read_from_file_bad_header() {
    let data = "2.1N\x04\0\0\0test\0\0\0\0\0\0\0\0\0\0\0\0\0\0\0\0\0\0\0\0".as_bytes();
    let result = SlpHeader::read_from_file(data, &mut 0u64);
    match result {
        Ok(_) => panic!("expected bad header error"),
        Err(e) => match e {
            SlpError::InvalidSlp(reason) => assert_eq!(reason, SlpInvalidReason::BadHeader),
            _ => panic!("unexpected error: {:?}", e),
        },
    }
}

#[test]
fn slp_test_slp_header_read_from_file() {
    let data = vec!['2' as u8, '.' as u8, '0' as u8, 'N' as u8, 4, 0, 0, 0,
                    't' as u8, 'e' as u8, 's' as u8, 't' as u8, 0, 0, 0, 0,
                    0, 0, 0, 0, 0, 0, 0, 0, 0, 0, 0, 0, 0, 0, 0, 0];
    let result = OldSlpHeader::read_from_file(&data, &mut 0u64);
    match result {
        Ok(slp_header) => assert_eq!(4u32, slp_header.shape_count),
        Err(e) => panic!("unexpected error: {:?}", e),
    }
}

#[test]
fn slp_test_slp_header_read_from_file_bad_header() {
    let data = vec!['2' as u8, '.' as u8, '1' as u8, 'N' as u8, 4, 0, 0, 0,
                    't' as u8, 'e' as u8, 's' as u8, 't' as u8, 0, 0, 0, 0,
                    0, 0, 0, 0, 0, 0, 0, 0, 0, 0, 0, 0, 0, 0, 0, 0];
    let result = OldSlpHeader::read_from_file(&data, &mut 0u64);
    match result {
        Ok(_) => panic!("expected bad header error"),
        Err(e) => match e {
            OldSlpError::InvalidSlp(reason) => assert_eq!("bad header", reason),
            _ => panic!("unexpected error: {:?}", e),
        },
    }
}

/// A file with one 4x2 shape: line 0 copies two bytes, fills one pixel with
/// 9 and skips one; line 1 is transparent.
fn one_shape_file(player_command: u8) -> Vec<u8> {
    let mut data = header_bytes("2.0N", 1);
    let outline_offset = 64u32;
    let data_offsets = 72u32;
    let commands_offset = 80u32;
    for v in [data_offsets, outline_offset, 0, 0, 4, 2, 0, 0] {
        data.extend_from_slice(&v.to_le_bytes());
    }
    // outline table: line 0 no padding, line 1 transparent
    data.extend_from_slice(&[0, 0, 0, 0, 0x00, 0x80, 0, 0]);
    // data offsets: line 0 at 80, line 1 unused
    data.extend_from_slice(&commands_offset.to_le_bytes());
    data.extend_from_slice(&0u32.to_le_bytes());
    // commands: copy 2 (2 << 2), bytes 5 and 6; player command of length 1 with byte 3; skip 1 (1 << 2 | 1); end
    data.extend_from_slice(&[0x08, 5, 6, player_command, 3, 0x05, 0x0F]);
    data
}

#[test]
fn decodes_a_small_shape_with_player_colors() {
    // 0x16: copy-and-colorize of length 1: player 2 draws 2 * 16 + 3 | 3 = 35
    let data = one_shape_file(0x16);
    let file = SlpFile::read_from(&data, 2).unwrap();
    assert_eq!(1, file.shapes.len());
    assert_eq!(vec![5, 6, 35, 0, 0, 0, 0, 0], file.shapes[0].pixels);
    assert_eq!(4, file.shapes[0].header.width);
}

#[test]
fn older_reader_copies_player_colors_unchanged() {
    let data = one_shape_file(0x16);
    let file = chariot::slp::SlpFile::read_from(&data).unwrap();
    assert_eq!(vec![5, 6, 3, 0, 0, 0, 0, 0], file.shapes[0].pixels);
}

#[test]
fn line_of_wrong_size_is_refused() {
    let mut data = one_shape_file(0x16);
    let n = data.len();
    data[n - 2] = 0x09; // skip 2 instead of 1: the line ends at 5, not 4
    match SlpFile::read_from(&data, 0) {
        Err(SlpError::InvalidSlp(SlpInvalidReason::LineOverrun)) | Err(SlpError::InvalidSlp(SlpInvalidReason::LineSize { .. })) => {}
        other => panic!("unexpected result: {:?}", other.map(|f| f.shapes.len())),
    }
}

#[test]
fn zero_length_copy_is_a_bad_length() {
    let mut data = one_shape_file(0x16);
    data[80] = 0x00;
    assert_eq!(SlpError::BadLength, SlpFile::read_from(&data, 0).err().unwrap());
}

#[test]
fn extended_command_is_not_decoded() {
    let mut data = one_shape_file(0x16);
    data[80] = 0x0E;
    assert!(SlpFile::read_from_checked(&data, 0).is_none());
}

#[test]
fn truncated_file_is_an_eof() {
    let data = header_bytes("2.0N", 1);
    assert_eq!(SlpError::UnexpectedEof, SlpFile::read_from(&data, 0).err().unwrap());
}
