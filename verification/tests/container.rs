use bytes::Bytes;
use rustoom::error::WadError;
use rustoom::level::{check_walkable, is_seg_in_player_fov, ActiveLevel, FovFacts};
use rustoom::map_items::Vertex;
use rustoom::painter::RGB;
use rustoom::pixmap::ColorMapper;
use rustoom::utils::hash_lump_name;
use rustoom::wad::{quick_check_if_lump_is_graphic, WadData};

fn le16(out: &mut Vec<u8>, v: u16) {
    out.push((v & 0xff) as u8);
    out.push((v >> 8) as u8);
}

fn le32(out: &mut Vec<u8>, v: u32) {
    le16(out, (v & 0xffff) as u16);
    le16(out, (v >> 16) as u16);
}

fn name8(out: &mut Vec<u8>, name: &str) {
    let mut padded = [0u8; 8];
    padded[..name.len()].copy_from_slice(name.as_bytes());
    out.extend_from_slice(&padded);
}

/// Lays lumps out behind a header and puts the directory at the end.
fn container(magic: &str, lumps: &[(String, Vec<u8>)]) -> Vec<u8> {
    let mut out = Vec::new();
    out.extend_from_slice(magic.as_bytes());
    le32(&mut out, lumps.len() as u32);
    le32(&mut out, 0);
    let mut entries = Vec::new();
    for (name, data) in lumps {
        entries.push((out.len() as u32, data.len() as u32, name.clone()));
        out.extend_from_slice(data);
    }
    let dir_offset = out.len() as u32;
    out[8..12].copy_from_slice(&dir_offset.to_le_bytes());
    for (start, size, name) in entries {
        le32(&mut out, start);
        le32(&mut out, size);
        name8(&mut out, &name);
    }
    out
}

/// The smallest lump with the shape of a patch: one column of no posts.
fn tiny_patch() -> Vec<u8> {
    let mut out = Vec::new();
    for v in [1u16, 1, 0, 0] {
        le16(&mut out, v);
    }
    le32(&mut out, 12);
    out.push(0xFF);
    out
}

fn palette_lumps() -> Vec<(String, Vec<u8>)> {
    let mut playpal = Vec::new();
    for i in 0..256u32 {
        playpal.extend_from_slice(&[i as u8, (255 - i) as u8, 7]);
    }
    let colormap: Vec<u8> = (0..256u32).map(|i| (255 - i) as u8).collect();
    vec![("PLAYPAL".to_string(), playpal), ("COLORMAP".to_string(), colormap)]
}

fn font_lumps() -> Vec<(String, Vec<u8>)> {
    (33..=90).map(|code| (format!("STCFN{:03}", code), tiny_patch())).collect()
}

fn thing(x: i16, y: i16, angle: i16, code: u16) -> Vec<u8> {
    let mut out = Vec::new();
    for v in [x as u16, y as u16, angle as u16, code, 7] {
        le16(&mut out, v);
    }
    out
}

/// One sector, one two-sided wall with two sides, one node over two
/// leaves, two segs.
fn level_lumps(name: &str) -> Vec<(String, Vec<u8>)> {
    let mut vertexes = Vec::new();
    for v in [0i16, 4, 10, 4, 0, -4, 10, -4] {
        le16(&mut vertexes, v as u16);
    }
    let mut linedefs = Vec::new();
    for v in [0u16, 1, 0x0004, 0, 0, 0, 1] {
        le16(&mut linedefs, v);
    }
    let mut sidedefs = Vec::new();
    for _ in 0..2 {
        sidedefs.extend_from_slice(&[0u8; 4]);
        name8(&mut sidedefs, "-");
        name8(&mut sidedefs, "-");
        name8(&mut sidedefs, "-");
        le16(&mut sidedefs, 0);
    }
    let mut segs = Vec::new();
    for v in [0u16, 1, 0, 0, 0, 0, 3, 2, 32768, 0, 1, 0] {
        le16(&mut segs, v);
    }
    let mut ssectors = Vec::new();
    for v in [1u16, 0, 1, 1] {
        le16(&mut ssectors, v);
    }
    let mut nodes = Vec::new();
    for v in [0u16, 0, 1, 0] {
        le16(&mut nodes, v);
    }
    nodes.extend_from_slice(&[0u8; 16]);
    le16(&mut nodes, 0x8000);
    le16(&mut nodes, 0x8001);
    let mut sectors = Vec::new();
    le16(&mut sectors, 0);
    le16(&mut sectors, 128);
    name8(&mut sectors, "FLOOR");
    name8(&mut sectors, "CEIL");
    for v in [255u16, 0, 0] {
        le16(&mut sectors, v);
    }
    vec![
        (name.to_string(), Vec::new()),
        ("THINGS".to_string(), thing(5, 1, 90, 1)),
        ("LINEDEFS".to_string(), linedefs),
        ("SIDEDEFS".to_string(), sidedefs),
        ("VERTEXES".to_string(), vertexes),
        ("SEGS".to_string(), segs),
        ("SSECTORS".to_string(), ssectors),
        ("NODES".to_string(), nodes),
        ("SECTORS".to_string(), sectors),
        ("REJECT".to_string(), vec![0u8]),
        ("BLOCKMAP".to_string(), vec![0u8; 8]),
    ]
}

fn whole(levels: &[&str]) -> Vec<(String, Vec<u8>)> {
    let mut lumps = palette_lumps();
    lumps.extend(font_lumps());
    for name in levels {
        lumps.extend(level_lumps(name));
    }
    lumps.push(("F_END".to_string(), Vec::new()));
    lumps
}

fn load(bytes: Vec<u8>, is_iwad: bool) -> Result<WadData, WadError> {
    WadData::load(Bytes::from(bytes), is_iwad)
}

fn error_of(bytes: Vec<u8>, is_iwad: bool) -> WadError {
    match load(bytes, is_iwad) {
        Ok(_) => panic!("the container was accepted"),
        Err(e) => e,
    }
}

#[test]
fn file_shorter_than_the_header_is_too_small() {
    assert_eq!(error_of(Vec::new(), true), WadError::TooSmall);
    assert_eq!(error_of(b"IWAD".to_vec(), true), WadError::TooSmall);
    assert_eq!(error_of(b"IWAD\0\0\0\0\x0c\0\0\0".to_vec(), true), WadError::TooSmall);
    assert_eq!(error_of(b"IWAD\0\0\0\0\x0c\0\0\0\0\0\0\0".to_vec(), true), WadError::TooSmall);
}

#[test]
fn wrong_magic_is_refused() {
    let lumps = whole(&["E1M1"]);
    assert_eq!(error_of(container("PWAD", &lumps), true), WadError::InvalidKind);
    assert_eq!(error_of(container("IWAD", &lumps), false), WadError::InvalidKind);
    assert_eq!(error_of(container("WAD2", &lumps), true), WadError::InvalidKind);
    assert_eq!(error_of(container("iwad", &lumps), true), WadError::InvalidKind);
    assert!(load(container("PWAD", &lumps), false).is_ok());
}

#[test]
fn magic_that_is_no_text_is_an_invalid_header() {
    let mut bytes = container("IWAD", &whole(&["E1M1"]));
    bytes[1] = 0xFF;
    assert_eq!(error_of(bytes, true), WadError::InvalidHeader);
}

#[test]
fn lump_that_ends_beyond_the_file_fails_the_load() {
    let lumps = whole(&["E1M1"]);
    let mut bytes = container("IWAD", &lumps);
    let len = bytes.len() as u32;
    let dir = u32::from_le_bytes([bytes[8], bytes[9], bytes[10], bytes[11]]) as usize;
    // entry 1 (COLORMAP): size one byte more than the file allows
    let start = u32::from_le_bytes([bytes[dir + 16], bytes[dir + 17], bytes[dir + 18], bytes[dir + 19]]);
    let size = len - start + 1;
    bytes[dir + 20..dir + 24].copy_from_slice(&size.to_le_bytes());
    assert_eq!(error_of(bytes, true), WadError::LumpTooBig { index: 1 });
}

#[test]
fn lump_that_starts_beyond_the_file_fails_the_load() {
    let lumps = whole(&["E1M1"]);
    let mut bytes = container("IWAD", &lumps);
    let dir = u32::from_le_bytes([bytes[8], bytes[9], bytes[10], bytes[11]]) as usize;
    bytes[dir..dir + 4].copy_from_slice(&0xFFFF_FFF0u32.to_le_bytes());
    assert_eq!(error_of(bytes, true), WadError::LumpTooBig { index: 0 });
}

#[test]
fn directory_beyond_the_file_fails_the_load() {
    let lumps = whole(&["E1M1"]);
    let mut bytes = container("IWAD", &lumps);
    let count = lumps.len() as u32 + 1;
    bytes[4..8].copy_from_slice(&count.to_le_bytes());
    assert_eq!(
        error_of(bytes, true),
        WadError::DirectoryOutOfBounds { index: lumps.len() }
    );
}

#[test]
fn unprintable_lump_name_fails_the_load() {
    let mut lumps = whole(&["E1M1"]);
    lumps.insert(2, ("BAD\x7fNAME".to_string(), vec![1, 2, 3]));
    assert_eq!(error_of(container("IWAD", &lumps), true), WadError::InvalidLumpName { index: 2 });
    let mut lumps = whole(&["E1M1"]);
    lumps.push(("TAB\tNAME".to_string(), vec![1, 2, 3]));
    let at = lumps.len() - 1;
    assert_eq!(error_of(container("IWAD", &lumps), true), WadError::InvalidLumpName { index: at });
}

#[test]
fn lump_name_with_a_space_is_read() {
    let mut lumps = whole(&["E1M1"]);
    lumps.insert(2, ("MY LUMP".to_string(), vec![1, 2, 3]));
    lumps.push(("A PATCH".to_string(), tiny_patch()));
    let wad = load(container("IWAD", &lumps), true).unwrap();
    assert_eq!(wad.map_count(), 1);
    assert!(wad.graphics().get_patch(hash_lump_name(b"A PATCH")).is_some());
    assert!(wad.graphics().get_patch(hash_lump_name(b"MY LUMP")).is_none());
}

#[test]
fn lump_with_a_space_in_its_name_ends_a_level() {
    let mut lumps = palette_lumps();
    lumps.extend(font_lumps());
    lumps.extend(level_lumps("E1M1"));
    lumps.push(("END MAP".to_string(), Vec::new()));
    let wad = load(container("IWAD", &lumps), true).unwrap();
    assert_eq!(wad.map_count(), 1);
    assert_eq!(wad.map_name(0), "E1M1");
}

#[test]
fn level_missing_a_lump_fails_the_load() {
    for missing in 1..=10 {
        let mut lumps = palette_lumps();
        lumps.extend(font_lumps());
        let at = lumps.len();
        let mut level = level_lumps("E1M1");
        level.remove(missing);
        lumps.extend(level);
        lumps.push(("F_END".to_string(), Vec::new()));
        // the level is found incomplete at the lump that ends it
        assert_eq!(
            error_of(container("IWAD", &lumps), true),
            WadError::IncompleteMap { index: at + 10 }
        );
    }
}

#[test]
fn level_with_an_empty_lump_fails_the_load() {
    let mut lumps = whole(&["E1M1"]);
    let at = lumps.iter().position(|(name, _)| name == "REJECT").unwrap();
    lumps[at].1.clear();
    let end = lumps.len() - 1;
    assert_eq!(error_of(container("IWAD", &lumps), true), WadError::IncompleteMap { index: end });
}

#[test]
fn vertex_lump_without_a_vertex_fails_the_load() {
    let mut lumps = whole(&["E1M1"]);
    let at = lumps.iter().position(|(name, _)| name == "VERTEXES").unwrap();
    lumps[at].1 = vec![1, 2, 3];
    assert_eq!(error_of(container("IWAD", &lumps), true), WadError::IncompleteMap { index: at });
}

#[test]
fn level_closed_by_the_next_level_marker() {
    let wad = load(container("IWAD", &whole(&["E1M1", "MAP02"])), true).unwrap();
    assert_eq!(wad.map_count(), 2);
    assert_eq!(wad.map_name(0), "E1M1");
    assert_eq!(wad.map_name(1), "MAP02");
}

#[test]
fn level_still_open_at_the_end_is_not_stored() {
    let mut lumps = whole(&["E1M1", "E1M2"]);
    lumps.pop();
    let wad = load(container("IWAD", &lumps), true).unwrap();
    assert_eq!(wad.map_count(), 1);
    let mut lumps = whole(&["E1M1"]);
    lumps.pop();
    assert_eq!(error_of(container("IWAD", &lumps), true), WadError::MapsMissing);
}

#[test]
fn container_without_palette_or_colour_map_is_refused() {
    let mut lumps = whole(&["E1M1"]);
    lumps.remove(0);
    assert_eq!(error_of(container("IWAD", &lumps), true), WadError::PaletteMissing);
    let mut lumps = whole(&["E1M1"]);
    lumps.remove(1);
    assert_eq!(error_of(container("IWAD", &lumps), true), WadError::PaletteMissing);
    let mut lumps = whole(&["E1M1"]);
    lumps[0].1.truncate(767);
    assert_eq!(error_of(container("IWAD", &lumps), true), WadError::PaletteMissing);
    let mut lumps = whole(&["E1M1"]);
    lumps[1].1.truncate(255);
    assert_eq!(error_of(container("IWAD", &lumps), true), WadError::PaletteMissing);
}

#[test]
fn container_without_levels_is_refused() {
    assert_eq!(error_of(container("IWAD", &whole(&[])), true), WadError::MapsMissing);
}

#[test]
fn container_missing_a_glyph_is_refused() {
    let mut lumps = whole(&["E1M1"]);
    let at = lumps.iter().position(|(name, _)| name == "STCFN065").unwrap();
    lumps.remove(at);
    assert_eq!(error_of(container("IWAD", &lumps), true), WadError::FontsMissing);
    // a glyph lump that has not the shape of a patch is passed over
    let mut lumps = whole(&["E1M1"]);
    lumps[at].1 = vec![0u8; 13];
    assert_eq!(error_of(container("IWAD", &lumps), true), WadError::FontsMissing);
}

#[test]
fn glyphs_beyond_the_required_ones_are_not_needed() {
    let mut lumps = whole(&["E1M1"]);
    lumps.push(("STCFN091".to_string(), tiny_patch()));
    lumps.push(("STCFN121".to_string(), tiny_patch()));
    let wad = load(container("IWAD", &lumps), true).unwrap();
    assert!(wad.font().is_complete());
    assert!(!wad.font().glyph(58).is_empty());
    assert!(wad.font().glyph(59).is_empty());
    assert!(!wad.font().glyph(63).is_empty());
}

#[test]
fn short_patch_name_table_fails_the_load() {
    let mut lumps = whole(&["E1M1"]);
    let mut pnames = Vec::new();
    le32(&mut pnames, 2);
    name8(&mut pnames, "WALL00_1");
    lumps.push(("PNAMES".to_string(), pnames));
    assert_eq!(error_of(container("IWAD", &lumps), true), WadError::PnamesTooSmall);
}

#[test]
fn texture_lump_faults_fail_the_load() {
    let mut lumps = whole(&["E1M1"]);
    lumps.push(("TEXTURE1".to_string(), vec![0u8; 8]));
    assert_eq!(
        error_of(container("IWAD", &lumps), true),
        WadError::TexturesTooSmall { len: 8 }
    );
    let mut lumps = whole(&["E1M1"]);
    let mut textures = Vec::new();
    le32(&mut textures, 1);
    le32(&mut textures, 8);
    textures.extend_from_slice(&[0u8; 20]);
    lumps.push(("TEXTURE2".to_string(), textures));
    assert_eq!(
        error_of(container("IWAD", &lumps), true),
        WadError::TextureOutOfBounds { entry: 0, len: 28, offset: 8 }
    );
}

#[test]
fn flats_and_patches_are_sorted_by_markers_and_shape() {
    let mut lumps = whole(&["E1M1"]);
    lumps.push(("F_START".to_string(), Vec::new()));
    lumps.push(("FLOOR4_8".to_string(), vec![3u8; 4096]));
    lumps.push(("F_END".to_string(), Vec::new()));
    lumps.push(("WALL00_1".to_string(), tiny_patch()));
    lumps.push(("DEMO1".to_string(), vec![9u8; 40]));
    let wad = load(container("IWAD", &lumps), true).unwrap();
    let gfx = wad.graphics();
    let flat = gfx.get_flat(hash_lump_name(b"FLOOR4_8")).unwrap();
    assert_eq!((flat.width(), flat.height()), (64, 64));
    assert!(gfx.get_flat(hash_lump_name(b"WALL00_1")).is_none());
    let patch = gfx.get_patch(hash_lump_name(b"WALL00_1")).unwrap();
    assert_eq!((patch.width(), patch.height()), (1, 1));
    assert!(gfx.get_patch(hash_lump_name(b"DEMO1")).is_none());
    assert!(gfx.get_patch(hash_lump_name(b"FLOOR4_8")).is_none());
    assert!(gfx.get_patch(hash_lump_name(b"STCFN033")).is_some());
}

#[test]
fn palette_of_a_loaded_container() {
    let wad = load(container("IWAD", &whole(&["E1M1"])), true).unwrap();
    let pal = wad.palette();
    assert!(pal.is_initialized());
    // colour map: index i names palette entry 255 - i, which is (255 - i, i, 7)
    assert_eq!(pal.byte2rgb(0), RGB { r: 255, g: 0, b: 7 });
    assert_eq!(pal.byte2rgb(200), RGB { r: 55, g: 200, b: 7 });
    assert_eq!(pal.get_main_palette().len(), 768);
    // grey level of an entry: its greatest channel
    assert_eq!(wad.font().grayscale()[0], 255);
    assert_eq!(wad.font().grayscale()[128], 128);
    assert_eq!(wad.font().grayscale()[100], 155);
}

#[test]
fn shape_of_a_patch() {
    assert!(quick_check_if_lump_is_graphic(&tiny_patch()));
    assert!(!quick_check_if_lump_is_graphic(&[]));
    assert!(!quick_check_if_lump_is_graphic(&[0u8; 11]));
    assert!(!quick_check_if_lump_is_graphic(&[0u8; 64]));
    let mut no_end = tiny_patch();
    no_end[12] = 0;
    assert!(!quick_check_if_lump_is_graphic(&no_end));
    let mut far_column = tiny_patch();
    far_column[8] = 13;
    assert!(!quick_check_if_lump_is_graphic(&far_column));
    // one post of two pixels, then the end mark
    let mut one_post = tiny_patch();
    one_post.truncate(12);
    one_post.extend_from_slice(&[0, 2, 0, 5, 6, 0, 0xFF]);
    assert!(quick_check_if_lump_is_graphic(&one_post));
    one_post.pop();
    assert!(!quick_check_if_lump_is_graphic(&one_post));
    // two columns: the greater offset is the one followed
    let mut two = Vec::new();
    for v in [2u16, 1, 0, 0] {
        le16(&mut two, v);
    }
    le32(&mut two, 17);
    le32(&mut two, 16);
    two.extend_from_slice(&[0xFF, 0x00]);
    assert!(!quick_check_if_lump_is_graphic(&two));
    two[17] = 0xFF;
    assert!(quick_check_if_lump_is_graphic(&two));
}

#[test]
fn end_to_end_visibility() {
    let wad = load(container("IWAD", &whole(&["E1M1"])), true).unwrap();
    assert_eq!(wad.map_count(), 1);
    assert_eq!(wad.map_name(0), "E1M1");
    let map = wad.map(0);
    assert!(map.is_complete());
    assert_eq!((map.min_x(), map.min_y(), map.max_x(), map.max_y()), (0, -4, 10, 4));
    assert_eq!(map.node_count(), 1);
    assert_eq!(map.root_bsp_node_idx(), 0);
    assert!(check_walkable(map, 1));
    let level = ActiveLevel::new(map.clone());
    assert_eq!(level.player().pos, Vertex { x: 5, y: 1 });
    // the player stands north of the dividing line: the left leaf, with
    // seg 1, is nearer than the right leaf, with seg 0
    let segs = level.player_visible_segments(&[true, true]);
    assert_eq!(segs.len(), 2);
    assert_eq!((segs[0].start, segs[0].end), (Vertex { x: 10, y: -4 }, Vertex { x: 0, y: -4 }));
    assert_eq!(segs[0].angle, 32768);
    assert!(!segs[0].direction_same);
    assert_eq!((segs[1].start, segs[1].end), (Vertex { x: 0, y: 4 }, Vertex { x: 10, y: 4 }));
    assert!(segs[1].direction_same);
    // only the seg that passes the field-of-view test is kept
    let segs = level.player_visible_segments(&[true, false]);
    assert_eq!(segs.len(), 1);
    assert_eq!(segs[0].start, Vertex { x: 0, y: 4 });
    let line = map.linedef(0);
    let details = level.get_line_details(&line);
    assert!(details.left_sidedef.is_some() && details.right_sidedef.is_some());
    assert_eq!(details.left_sector.unwrap().ceiling_height, 128);
}

/// An angle in radians brought into `[0, 2π)`.
fn turn(rad: f64) -> f64 {
    let full = 2.0 * std::f64::consts::PI;
    let rad = rad % full;
    if rad >= 0.0 {
        rad
    } else {
        rad + full
    }
}

fn direction(from: Vertex, to: Vertex) -> f64 {
    turn(((to.y - from.y) as f64).atan2((to.x - from.x) as f64))
}

/// The field-of-view test of a seg from `pos`, looking along `facing`
/// with a half field of view of `half_fov`, both in radians.
fn in_view(pos: Vertex, facing: f64, half_fov: f64, start: Vertex, end: Vertex) -> bool {
    let a1 = direction(pos, start);
    let a2 = direction(pos, end);
    let span = turn(a1 - a2);
    let full_fov = turn(half_fov * 2.0);
    let r1 = turn(turn(a1 - facing) + half_fov);
    let r2 = turn(turn(a2 - facing) + half_fov);
    is_seg_in_player_fov(&FovFacts {
        edge_on: a1 == a2,
        faces_away: span >= std::f64::consts::PI,
        start_in_view: r1 < full_fov,
        end_in_view: r2 < full_fov,
        start_within_span: r1 < turn(full_fov + span),
    })
}

#[test]
fn end_to_end_visibility_with_a_wide_field_of_view() {
    let wad = load(container("IWAD", &whole(&["E1M1"])), true).unwrap();
    let map = wad.map(0);
    assert!(check_walkable(map, map.node_count()));
    let level = ActiveLevel::new(map.clone());
    let player = level.player();
    let facing = (player.angle as f64).to_radians();
    let half_fov = 170.0f64.to_radians();
    let verdicts: Vec<bool> = (0..map.seg_count())
        .map(|idx| {
            let seg = map.seg(idx);
            in_view(player.pos, facing, half_fov, seg.start, seg.end)
        })
        .collect();
    assert_eq!(verdicts.len(), 2);
    assert!(verdicts[0]);
    let segs = level.player_visible_segments(&verdicts);
    assert!(!segs.is_empty());
    assert!(segs.len() <= 2);
    for seg in &segs {
        let at = (0..map.seg_count())
            .find(|idx| {
                let other = map.seg(*idx);
                (other.start, other.end, other.angle, other.linedef_idx, other.direction_same, other.offset)
                    == (seg.start, seg.end, seg.angle, seg.linedef_idx, seg.direction_same, seg.offset)
            })
            .unwrap();
        assert!(verdicts[at]);
        assert!(in_view(player.pos, facing, half_fov, seg.start, seg.end));
    }
    // with a narrow view to the north only the seg ahead is kept
    let narrow = 20.0f64.to_radians();
    let verdicts: Vec<bool> = (0..map.seg_count())
        .map(|idx| {
            let seg = map.seg(idx);
            in_view(player.pos, facing, narrow, seg.start, seg.end)
        })
        .collect();
    assert_eq!(verdicts, vec![true, false]);
    let segs = level.player_visible_segments(&verdicts);
    assert_eq!(segs.len(), 1);
    assert_eq!(segs[0].start, Vertex { x: 0, y: 4 });
}
