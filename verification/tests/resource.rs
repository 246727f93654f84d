use chariot::file_formats::drs::{DrsError, DrsFile, DrsFileType};
use chariot::file_formats::palette::{PaletteColor, PaletteError};
use chariot::file_formats::slp::SlpShapeHeader;
use chariot::identifier::SlpFileId;
use chariot::media::{Color, Point, Rect};
use chariot::resource::drs_manager::{DrsKey, DrsManager, LoadError};
use chariot::resource::game_dir::{eq_ignore_ascii_case, find_entry, path_components, GameDir};
use chariot::resource::render_command::{RenderCommand, RenderOrder, RenderRectParams};
use chariot::resource::shape_manager::{
    layout_frames, load_palette, load_slp_checked, place_frame, ShapeError, ShapeKey, PALETTE_FILE_ID,
};
use chariot::resource::shape_metadata::{ShapeMetadataKey, ShapeMetadataStore};

const BINARY: u32 = 0x62696E61;
const SLP: u32 = 0x736C7020;
const WAV: u32 = 0x77617620;

/// A DRS archive with the given tables: type code, then files (ID, contents).
fn drs_bytes(tables: &[(u32, Vec<(u32, Vec<u8>)>)]) -> Vec<u8> {
    let mut d = Vec::new();
    let mut copyright = b"Copyright (c) 1997 Ensemble Studios.\x1a".to_vec();
    copyright.resize(40, 0);
    d.extend_from_slice(&copyright);
    d.extend_from_slice(b"1.00");
    let mut kind = b"tribe".to_vec();
    kind.resize(12, 0);
    d.extend_from_slice(&kind);
    d.extend_from_slice(&(tables.len() as u32).to_le_bytes());
    d.extend_from_slice(&0u32.to_le_bytes());
    for (code, files) in tables {
        d.extend_from_slice(&code.to_le_bytes());
        d.extend_from_slice(&0u32.to_le_bytes());
        d.extend_from_slice(&(files.len() as u32).to_le_bytes());
    }
    for (_, files) in tables {
        for (id, contents) in files {
            d.extend_from_slice(&id.to_le_bytes());
            d.extend_from_slice(&0u32.to_le_bytes());
            d.extend_from_slice(&(contents.len() as u32).to_le_bytes());
        }
    }
    for (_, files) in tables {
        for (_, contents) in files {
            d.extend_from_slice(contents);
        }
    }
    d
}

/// An SLP file with no shapes that announces `count` of them.
fn slp_header(count: u32) -> Vec<u8> {
    let mut d = b"2.0N".to_vec();
    d.extend_from_slice(&count.to_le_bytes());
    d.extend_from_slice(&[0u8; 24]);
    d
}

fn archive(tables: &[(u32, Vec<(u32, Vec<u8>)>)]) -> DrsFile {
    DrsFile::read_from(&drs_bytes(tables)).unwrap()
}

fn game_dir() -> GameDir {
    GameDir { dir: "/game".to_string() }
}

#[test]
fn drs_key_paths() {
    assert_eq!("data/border.drs", DrsKey::Border.path());
    assert_eq!("data/graphics.drs", DrsKey::Graphics.path());
    assert_eq!("data/interfac.drs", DrsKey::Interfac.path());
    assert_eq!("data/sounds.drs", DrsKey::Sounds.path());
    assert_eq!("data/terrain.drs", DrsKey::Terrain.path());
}

#[test]
fn preload_loads_every_archive() {
    let mut m = DrsManager::new(&game_dir());
    assert_eq!("/game", m.game_dir().dir);
    let r: Result<(), LoadError<String>> = m.preload(|k| {
        let id = match k {
            DrsKey::Border => 1,
            DrsKey::Graphics => 2,
            DrsKey::Interfac => 3,
            DrsKey::Sounds => 4,
            DrsKey::Terrain => 5,
        };
        Ok(drs_bytes(&[(WAV, vec![(id, vec![id as u8])])]))
    });
    assert!(r.is_ok());
    assert_eq!(4, m.get(DrsKey::Sounds).tables[0].entries[0].file_id);
    assert_eq!(vec![2u8], m.get(DrsKey::Graphics).tables[0].contents[0]);
}

#[test]
fn preload_stops_at_the_first_failure() {
    let mut m = DrsManager::new(&game_dir());
    let r = m.preload(|k| match k {
        DrsKey::Interfac => Err("missing".to_string()),
        _ => Ok(drs_bytes(&[])),
    });
    assert!(matches!(r, Err(LoadError::Read(ref e)) if e == "missing"));
    assert_eq!(0, m.get(DrsKey::Border).tables.len());
    assert_eq!(0, m.get(DrsKey::Graphics).tables.len());
}

#[test]
fn preload_reports_bad_archives() {
    let mut m = DrsManager::new(&game_dir());
    let r: Result<(), LoadError<String>> = m.preload(|_| Ok(vec![0u8; 10]));
    assert!(matches!(r, Err(LoadError::Drs(DrsError::UnexpectedEof))));
    let mut bad = drs_bytes(&[]);
    bad[0] = b'X';
    let r: Result<(), LoadError<String>> = m.preload(|_| Ok(bad.clone()));
    assert!(matches!(r, Err(LoadError::Drs(DrsError::InvalidDrs))));
    let r: Result<(), LoadError<String>> = m.preload(|_| Ok(drs_bytes(&[(0x12345678, vec![])])));
    assert!(matches!(r, Err(LoadError::UnknownFileType)));
}

#[test]
fn components_of_a_relative_path() {
    let c = path_components(b"data/./Border.drs");
    assert_eq!(vec![b"data".to_vec(), b"Border.drs".to_vec()], c);
    let c = path_components(b"//a/../b/");
    assert_eq!(vec![b"a".to_vec(), b"b".to_vec()], c);
    assert!(path_components(b"").is_empty());
}

#[test]
fn names_match_without_ascii_case() {
    assert!(eq_ignore_ascii_case(b"Border.DRS", b"border.drs"));
    assert!(!eq_ignore_ascii_case(b"border.drs", b"border.dr"));
    assert!(!eq_ignore_ascii_case(b"a", b"b"));
    let entries = vec![b"x".to_vec(), b"BORDER.drs".to_vec(), b"border.drs".to_vec()];
    assert_eq!(Some(1), find_entry(b"border.DRS", &entries));
    assert_eq!(None, find_entry(b"graphics.drs", &entries));
}

#[test]
fn shape_metadata_counts_frames_of_graphics() {
    let mut m = DrsManager::new(&game_dir());
    let r: Result<(), LoadError<String>> = m.preload(|k| match k {
        DrsKey::Graphics => Ok(drs_bytes(&[
            (BINARY, vec![(9, slp_header(99))]),
            (SLP, vec![(10, slp_header(3)), (11, slp_header(7))]),
        ])),
        _ => Ok(drs_bytes(&[])),
    });
    assert!(r.is_ok());
    let store = ShapeMetadataStore::load(&m);
    let key = ShapeMetadataKey::new(DrsKey::Graphics, SlpFileId(11));
    assert_eq!(7, store.get(&key).unwrap().shape_count);
    assert_eq!(3, store.get(&ShapeMetadataKey::new(DrsKey::Graphics, SlpFileId(10))).unwrap().shape_count);
    assert!(store.get(&ShapeMetadataKey::new(DrsKey::Graphics, SlpFileId(9))).is_none());
    assert!(store.get(&ShapeMetadataKey::new(DrsKey::Border, SlpFileId(10))).is_none());
}

#[test]
fn shape_metadata_refuses_bad_headers() {
    let mut m = DrsManager::new(&game_dir());
    let r: Result<(), LoadError<String>> = m.preload(|k| match k {
        DrsKey::Graphics => Ok(drs_bytes(&[(SLP, vec![(10, b"nope".to_vec())])])),
        _ => Ok(drs_bytes(&[])),
    });
    assert!(r.is_ok());
    assert!(ShapeMetadataStore::load_checked(&m).is_none());
}

#[test]
fn palette_comes_from_the_interface_archive() {
    let text = b"JASC-PAL\r\n0100\r\n256\r\n1 2 3\r\n".to_vec();
    let interfac = archive(&[(SLP, vec![]), (BINARY, vec![(PALETTE_FILE_ID, text)])]);
    let p = load_palette(&interfac).unwrap();
    assert_eq!(vec![PaletteColor { r: 1, g: 2, b: 3 }], p);

    let none = archive(&[(SLP, vec![])]);
    assert!(matches!(load_palette(&none), Err(ShapeError::InterfacBinaryTableMissing)));
    let other = archive(&[(BINARY, vec![(1, vec![])])]);
    assert!(matches!(load_palette(&other), Err(ShapeError::InterfacMissingPalette)));
    let bad = archive(&[(BINARY, vec![(PALETTE_FILE_ID, b"JASC\n".to_vec())])]);
    assert!(matches!(load_palette(&bad), Err(ShapeError::Palette(PaletteError::InvalidPalette("bad header")))));
}

#[test]
fn slp_files_are_found_by_id() {
    let drs = archive(&[(SLP, vec![(10, slp_header(0))])]);
    let key = ShapeKey::new(DrsKey::Graphics, 10, 2);
    let f = load_slp_checked(&drs, &key).unwrap().unwrap();
    assert_eq!(2, f.player_index);
    assert_eq!(0, f.shapes.len());
    let missing = ShapeKey::new(DrsKey::Graphics, 11, 2);
    assert!(matches!(load_slp_checked(&drs, &missing), Some(Err(ShapeError::SlpNotFound(DrsKey::Graphics, 11)))));
    let no_table = archive(&[(WAV, vec![])]);
    assert!(matches!(load_slp_checked(&no_table, &key), Some(Err(ShapeError::NoSlpTableInDrs(DrsKey::Graphics)))));
}

fn shape_header(width: u32, height: u32, cx: i32, cy: i32) -> SlpShapeHeader {
    SlpShapeHeader {
        shape_data_offsets: 0,
        shape_outline_offset: 0,
        palette_offset: 0,
        properties: 0,
        width,
        height,
        center_x: cx,
        center_y: cy,
    }
}

#[test]
fn frames_are_laid_out_side_by_side() {
    let hs = vec![shape_header(10, 20, 5, 6), shape_header(3, 30, 1, 2)];
    let l = layout_frames(&hs).unwrap();
    assert_eq!(Rect::of(0, 0, 10, 20), l.frames[0]);
    assert_eq!(Rect::of(14, 0, 3, 30), l.frames[1]);
    assert_eq!(Point::new(1, 2), l.centers[1]);
    assert_eq!(Rect::of(0, 0, 17, 30), l.total);
    assert!(layout_frames(&[shape_header(u32::MAX / 2, 1, 0, 0), shape_header(u32::MAX / 2, 1, 0, 0), shape_header(1, 1, 0, 0)]).is_none());
}

#[test]
fn frames_are_drawn_around_their_center() {
    let dst = place_frame(Rect::of(14, 0, 3, 30), Point::new(1, 2), Point::new(100, 50)).unwrap();
    assert_eq!(Rect::of(113, 48, 3, 30), dst);
    assert!(place_frame(Rect::of(0, 0, 1, 1), Point::new(i32::MIN, 0), Point::new(0, 0)).is_none());
}

#[test]
fn render_commands_sort_stably_by_layer_then_depth() {
    let mut cs = vec![
        RenderCommand::new_debug_rect(2, 0, Rect::of(1, 0, 0, 0)),
        RenderCommand::new_line(1, 5, Color::default(), Point::new(0, 0), Point::new(1, 1)),
        RenderCommand::new_debug_rect(1, -3, Rect::of(2, 0, 0, 0)),
        RenderCommand::new_debug_rect(1, 5, Rect::of(3, 0, 0, 0)),
    ];
    RenderCommand::sort_by_order(&mut cs);
    let orders: Vec<(u16, i32)> = cs.iter().map(|c| (c.order().layer, c.order().depth)).collect();
    assert_eq!(vec![(1, -3), (1, 5), (1, 5), (2, 0)], orders);
    assert!(matches!(cs[1], RenderCommand::RenderLine(..)));
    assert!(matches!(cs[2], RenderCommand::RenderRect(_, p) if p.rect.x == 3));
}

#[test]
fn render_command_constructors() {
    assert_eq!(RenderOrder { layer: 3, depth: -1, debug: true }, RenderOrder::new(3, -1, true));
    assert_eq!(Rect::of(1, 2, 3, 4), RenderRectParams::new(Rect::of(1, 2, 3, 4)).rect);
    let c = RenderCommand::new_shape(4, 9, ShapeKey::new(DrsKey::Terrain, 15000, 1), 2, Point::new(5, 6), true, false);
    assert_eq!(RenderOrder::new(4, 9, false), *c.order());
    match c {
        RenderCommand::RenderShape(_, p) => {
            assert_eq!(15000, p.shape_key.slp_id);
            assert_eq!(Point::new(5, 6), p.position);
            assert!(p.flip_horizontal && !p.flip_vertical);
        }
        _ => panic!("not a shape"),
    }
    let l = RenderCommand::new_debug_line(1, 1, Color { r: 1, g: 2, b: 3, a: 4 }, Point::new(0, 0), Point::new(2, 2));
    assert!(c.order().layer == 4 && l.order().debug);
}

#[test]
fn the_last_file_with_an_id_is_found() {
    let drs = archive(&[(BINARY, vec![(5, b"first".to_vec()), (6, b"x".to_vec()), (5, b"second".to_vec())])]);
    let table = drs.find_table(DrsFileType::Binary).unwrap();
    assert_eq!(b"second".to_vec(), *table.find_file_contents(5).unwrap());
    assert_eq!(b"x".to_vec(), *table.find_file_contents(6).unwrap());
    assert!(table.find_file_contents(7).is_none());
}
