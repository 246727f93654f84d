use chariot::bytes::{decompress, read_array, read_u16, ReadArrayExt, StreamError};
use chariot::file_formats::language::{Language, LanguageError};
use chariot::file_formats::palette::{read_from, IntErrorKind, PaletteColor, PaletteError};
use std::io::Write;

// ---------------------------------------------------------------- palettes

#[test]
fn palette_reads_colors_after_the_header() {
    let text = b"JASC-PAL\r\n0100\r\n256\r\n1 2 3\r\n255 0 10\r\n";
    let p = read_from(text).unwrap();
    assert_eq!(2, p.len());
    assert_eq!(PaletteColor { r: 1, g: 2, b: 3 }, p[0]);
    assert_eq!(PaletteColor { r: 255, g: 0, b: 10 }, p[1]);
}

#[test]
fn palette_without_final_newline_and_extra_spaces() {
    let text = b"JASC-PAL\n0100\n256\n  +7\t 8   9  ";
    let p = read_from(text).unwrap();
    assert_eq!(vec![PaletteColor { r: 7, g: 8, b: 9 }], p);
}

#[test]
fn palette_with_bad_header() {
    assert_eq!(Err(PaletteError::InvalidPalette("bad header")), read_from(b"JASC-PAL\n0101\n256\n"));
    assert_eq!(Err(PaletteError::InvalidPalette("bad header")), read_from(b"JASC\n"));
}

#[test]
fn palette_with_wrong_component_count() {
    assert_eq!(Err(PaletteError::InvalidPalette("invalid color found")),
               read_from(b"JASC-PAL\n0100\n256\n1 2\n"));
    assert_eq!(Err(PaletteError::InvalidPalette("invalid color found")),
               read_from(b"JASC-PAL\n0100\n256\n1 2 3 4\n"));
}

#[test]
fn palette_with_bad_components() {
    assert_eq!(Err(PaletteError::ParseIntError(IntErrorKind::PosOverflow)),
               read_from(b"JASC-PAL\n0100\n256\n1 256 3\n"));
    assert_eq!(Err(PaletteError::ParseIntError(IntErrorKind::InvalidDigit)),
               read_from(b"JASC-PAL\n0100\n256\n1 -2 3\n"));
    assert_eq!(Err(PaletteError::ParseIntError(IntErrorKind::InvalidDigit)),
               read_from(b"JASC-PAL\n0100\n256\n1 2 +\n"));
}

#[test]
fn palette_with_bad_text() {
    assert_eq!(Err(PaletteError::ReadError(StreamError::InvalidData)),
               read_from(b"JASC-PAL\n\xFF\n"));
}

#[test]
fn palette_short_file_has_no_colors() {
    assert_eq!(Ok(vec![]), read_from(b"JASC-PAL\n0100\n"));
    assert_eq!(Ok(vec![]), read_from(b""));
}

#[test]
fn palette_color_new_is_black() {
    assert_eq!(PaletteColor { r: 0, g: 0, b: 0 }, PaletteColor::new());
}

// ------------------------------------------------------------ decompression

#[test]
fn raw_deflate_round_trip() {
    let text = b"the quick brown fox jumps over the lazy dog, the quick brown fox";
    let mut enc = flate2::write::DeflateEncoder::new(Vec::new(), flate2::Compression::default());
    enc.write_all(text).unwrap();
    let packed = enc.finish().unwrap();
    assert_eq!(Ok(text.to_vec()), decompress(&packed));
}

#[test]
fn cut_deflate_gives_what_it_holds() {
    let text: Vec<u8> = (0..5000u32).map(|i| (i * 7 % 251) as u8).collect();
    let mut enc = flate2::write::DeflateEncoder::new(Vec::new(), flate2::Compression::default());
    enc.write_all(&text).unwrap();
    let packed = enc.finish().unwrap();
    let part = decompress(&packed[..packed.len() / 2]).unwrap();
    assert!(part.len() < text.len());
    assert!(text.starts_with(&part));
}

#[test]
fn corrupt_deflate_is_invalid_data() {
    assert_eq!(Err(StreamError::InvalidData), decompress(&[0xFF, 0xFF, 0xFF, 0xFF]));
}

// --------------------------------------------------------------- arrays

#[test]
fn read_array_reads_each_value_in_turn() {
    let data = [1u8, 0, 2, 0, 3, 0];
    let mut pos = 0u64;
    let r: Result<Vec<u16>, StreamError> = read_array(&data, &mut pos, 3, |d, p| {
        let mut q = p;
        read_u16(d, &mut q).map(|v| (v, q))
    });
    assert_eq!(Ok(vec![1, 2, 3]), r);
    assert_eq!(6, pos);
}

#[test]
fn read_array_stops_at_the_first_failure() {
    let data = [1u8, 0, 2];
    let mut pos = 0u64;
    let r: Result<Vec<u16>, StreamError> = read_array(&data, &mut pos, 3, |d, p| {
        let mut q = p;
        read_u16(d, &mut q).map(|v| (v, q))
    });
    assert_eq!(Err(StreamError::UnexpectedEof), r);
    assert_eq!(2, pos);
}

#[test]
fn read_array_as_a_method_of_bytes() {
    let data: &[u8] = &[5u8, 0, 6, 0];
    let mut pos = 0u64;
    let r: Result<Vec<u16>, StreamError> = data.read_array(&mut pos, 2, |d: &[u8], p: u64| {
        let mut q = p;
        read_u16(d, &mut q).map(|v| (v, q))
    });
    assert_eq!(Ok(vec![5, 6]), r);
    assert_eq!(4, pos);
}

// -------------------------------------------------------------- language

fn put_u16(d: &mut Vec<u8>, at: usize, v: u16) {
    d[at..at + 2].copy_from_slice(&v.to_le_bytes());
}

fn put_u32(d: &mut Vec<u8>, at: usize, v: u32) {
    d[at..at + 4].copy_from_slice(&v.to_le_bytes());
}

/// A small language library: one resource section at 400 (virtual address
/// 0x1000), a string directory with one block numbered `block`, whose data
/// holds `records`.
fn language_image(block: u32, records: &[Vec<u16>]) -> Vec<u8> {
    let root = 400usize;
    let mut strings: Vec<u8> = Vec::new();
    for r in records {
        strings.extend_from_slice(&(r.len() as u16).to_le_bytes());
        for w in r {
            strings.extend_from_slice(&w.to_le_bytes());
        }
    }
    let mut d = vec![0u8; root + 96 + strings.len()];
    d[0] = b'M';
    d[1] = b'Z';
    put_u32(&mut d, 60, 64);
    d[64] = b'P';
    d[65] = b'E';
    put_u16(&mut d, 70, 1);
    put_u32(&mut d, 64 + 120 + 16, 0x1000);
    d[312..317].copy_from_slice(b".rsrc");
    put_u32(&mut d, 312 + 12, 0x1000);
    put_u32(&mut d, 312 + 20, root as u32);
    // root directory: one entry, strings (6), at root + 24
    put_u16(&mut d, root + 14, 1);
    put_u32(&mut d, root + 16, 6);
    put_u32(&mut d, root + 20, 0x8000_0000 | 24);
    // string directory: one block, its language directory at root + 48
    put_u16(&mut d, root + 24 + 14, 1);
    put_u32(&mut d, root + 24 + 16, block);
    put_u32(&mut d, root + 24 + 20, 0x8000_0000 | 48);
    // language directory: one entry, its data entry at root + 72
    put_u16(&mut d, root + 48 + 14, 1);
    put_u32(&mut d, root + 48 + 16, 0x409);
    put_u32(&mut d, root + 48 + 20, 72);
    // data entry: the block's data at root + 96
    put_u32(&mut d, root + 72, 0x1000 + 96);
    put_u32(&mut d, root + 76, strings.len() as u32);
    d[root + 96..].copy_from_slice(&strings);
    d
}

fn utf16(s: &str) -> Vec<u16> {
    s.encode_utf16().collect()
}

#[test]
fn language_strings_of_a_block() {
    let image = language_image(1, &[vec![], utf16("Hi"), utf16("abc")]);
    let lang = Language::read_from_stream(&image).unwrap();
    assert_eq!(2, lang.strings.len());
    assert_eq!("Hi", lang.strings[&1]);
    assert_eq!("abc", lang.strings[&2]);
}

#[test]
fn language_block_numbers_give_sixteen_ids_each() {
    let image = language_image(3, &[utf16("x"), utf16("Ünïcödé €")]);
    let lang = Language::read_from_stream(&image).unwrap();
    assert_eq!("x", lang.strings[&32]);
    assert_eq!("Ünïcödé €", lang.strings[&33]);
}

#[test]
fn language_surrogate_pairs_decode() {
    let image = language_image(1, &[utf16("a\u{1F600}b")]);
    let lang = Language::read_from_stream(&image).unwrap();
    assert_eq!("a\u{1F600}b", lang.strings[&0]);
}

#[test]
fn language_lone_surrogate_is_refused() {
    let image = language_image(1, &[vec![0x61, 0xD800, 0x62]]);
    assert!(matches!(Language::read_from_stream(&image), Err(LanguageError::InvalidUtf16)));
}

#[test]
fn language_without_mz_is_refused() {
    let mut image = language_image(1, &[utf16("Hi")]);
    image[0] = b'X';
    assert!(matches!(Language::read_from_stream(&image), Err(LanguageError::InvalidPeMagic)));
    let mut image = language_image(1, &[utf16("Hi")]);
    image[65] = b'X';
    assert!(matches!(Language::read_from_stream(&image), Err(LanguageError::InvalidPeMagic)));
}

#[test]
fn language_truncated_is_an_eof() {
    let image = language_image(1, &[utf16("Hi")]);
    assert!(matches!(Language::read_from_stream(&image[..100]),
                     Err(LanguageError::Read(StreamError::UnexpectedEof))));
    assert!(matches!(Language::read_from_stream(&image[..image.len() - 1]),
                     Err(LanguageError::Read(StreamError::UnexpectedEof))));
}

#[test]
fn language_without_resource_section() {
    let mut image = language_image(1, &[utf16("Hi")]);
    put_u32(&mut image, 312 + 12, 0x2000);
    assert!(matches!(Language::read_from_stream(&image), Err(LanguageError::ResourceSectionNotFound)));
}

#[test]
fn language_without_strings() {
    let mut image = language_image(1, &[utf16("Hi")]);
    put_u32(&mut image, 400 + 16, 3);
    assert!(matches!(Language::read_from_stream(&image), Err(LanguageError::StringResourcesNotFound)));
}

#[test]
fn language_block_zero_cannot_be_read() {
    let image = language_image(0, &[utf16("Hi")]);
    assert!(Language::read_from_stream_checked(&image).is_none());
}
