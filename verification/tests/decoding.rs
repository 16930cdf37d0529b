use rustoom::map_items::{BspNode, LineDef, NodeRef, Sector, Seg, SideDef, Vertex};
use rustoom::names::{
    bytes_eq, extract_lump_name, is_ascii_digit, is_font_name, is_map_name, is_texture_name,
    str_eq,
};
use rustoom::error::WadError;
use rustoom::things::Thing;
use rustoom::utils::{
    atoi, buf_to_i16, buf_to_i16_vect, buf_to_u16, buf_to_u32, checked_slice, hash_lump_name,
    parse_digits,
};

fn le16(out: &mut Vec<u8>, v: u16) {
    out.push((v & 0xff) as u8);
    out.push((v >> 8) as u8);
}

fn lei16(out: &mut Vec<u8>, v: i16) {
    le16(out, v as u16);
}

fn name8(out: &mut Vec<u8>, name: &str) {
    let mut padded = [0u8; 8];
    padded[..name.len()].copy_from_slice(name.as_bytes());
    out.extend_from_slice(&padded);
}

fn vertex_lump(points: &[(i16, i16)]) -> Vec<u8> {
    let mut out = Vec::new();
    for (x, y) in points {
        lei16(&mut out, *x);
        lei16(&mut out, *y);
    }
    out
}

#[test]
fn u16_is_little_endian() {
    assert_eq!(buf_to_u16(&[0x34, 0x12]), 0x1234);
    assert_eq!(buf_to_u16(&[0xff, 0xff, 0x00]), 0xffff);
    assert_eq!(buf_to_u16(&[0x00, 0x80]), 0x8000);
}

#[test]
fn i16_is_twos_complement() {
    assert_eq!(buf_to_i16(&[0xff, 0xff]), -1);
    assert_eq!(buf_to_i16(&[0x00, 0x80]), -32768);
    assert_eq!(buf_to_i16(&[0xff, 0x7f]), 32767);
    assert_eq!(buf_to_i16(&[0xfd, 0xff]), -3);
}

#[test]
fn u32_is_little_endian() {
    assert_eq!(buf_to_u32(&[0x78, 0x56, 0x34, 0x12]), 0x12345678);
    assert_eq!(buf_to_u32(&[0xff, 0xff, 0xff, 0xff, 0x01]), 0xffff_ffff);
}

#[test]
fn i16_vector_drops_an_odd_tail() {
    assert_eq!(buf_to_i16_vect(&[1, 0, 0xff, 0xff, 7]), vec![1i16, -1]);
    assert_eq!(buf_to_i16_vect(&[]), Vec::<i16>::new());
    assert_eq!(buf_to_i16_vect(&[9]), Vec::<i16>::new());
}

#[test]
fn checked_slice_picks_the_record() {
    let buf = [0u8, 1, 2, 3, 4, 5, 6, 7, 8];
    assert_eq!(checked_slice(&buf, 1, 4), &[4u8, 5, 6, 7]);
    assert_eq!(checked_slice(&buf, 2, 3), &[6u8, 7, 8]);
    assert_eq!(checked_slice(&buf, 0, 0), &[] as &[u8]);
}

#[test]
fn lump_key_packs_bytes_big_endian() {
    assert_eq!(hash_lump_name(b"E1M1"), 0x4531_4D31);
    assert_eq!(hash_lump_name(b""), 0);
    assert_eq!(hash_lump_name(b"A"), 0x41);
}

#[test]
fn lump_key_stops_at_nul_and_folds_case() {
    assert_eq!(hash_lump_name(b"SKY1\0\0\0\0"), hash_lump_name(b"SKY1"));
    assert_eq!(hash_lump_name(b"sky1"), hash_lump_name(b"SKY1"));
    assert_eq!(hash_lump_name(b"AB\0CD"), 0x4142);
    assert_eq!(hash_lump_name(b"az"), 0x415A);
}

#[test]
fn lump_key_keeps_the_last_eight_bytes() {
    assert_eq!(hash_lump_name(b"ABCDEFGH"), 0x4142_4344_4546_4748);
    assert_eq!(hash_lump_name(b"XABCDEFGH"), 0x4142_4344_4546_4748);
}

#[test]
fn atoi_reads_decimal_digits() {
    assert_eq!(atoi("033"), Some(33));
    assert_eq!(atoi("0"), Some(0));
    assert_eq!(atoi(""), Some(0));
    assert_eq!(atoi("999999999"), Some(999_999_999));
    assert_eq!(atoi("12a"), None);
    assert_eq!(atoi("-1"), None);
    assert_eq!(parse_digits(b"121"), Some(121));
    assert_eq!(parse_digits(b"1 1"), None);
}

#[test]
fn atoi_reads_numbers_up_to_the_greatest() {
    assert_eq!(atoi("0000000001"), Some(1));
    assert_eq!(atoi("4000000000"), Some(4_000_000_000));
    assert_eq!(atoi("4294967295"), Some(u32::MAX));
    assert_eq!(atoi("000000000000000000004294967295"), Some(u32::MAX));
    assert_eq!(atoi("4294967295x"), None);
    assert_eq!(parse_digits(b"0000000000000"), Some(0));
}

#[test]
fn byte_and_text_equality() {
    assert!(bytes_eq(b"abc", b"abc"));
    assert!(!bytes_eq(b"abc", b"abd"));
    assert!(!bytes_eq(b"abc", b"ab"));
    assert!(str_eq("NODES", "NODES"));
    assert!(!str_eq("NODES", "NODE"));
    assert!(!str_eq("NODES", "nodes"));
}

#[test]
fn lump_name_ends_at_first_nul() {
    assert_eq!(extract_lump_name(b"E1M1\0\0\0\0", 3), Ok("E1M1"));
    assert_eq!(extract_lump_name(b"VERTEXES", 0), Ok("VERTEXES"));
    assert_eq!(extract_lump_name(b"\0\0\0\0\0\0\0\0", 0), Ok(""));
    assert_eq!(extract_lump_name(b"AB\0\x01\x02\0\0\0", 0), Ok("AB"));
}

#[test]
fn lump_name_may_hold_spaces() {
    assert_eq!(extract_lump_name(b"E1 1\0\0\0\0", 7), Ok("E1 1"));
    assert_eq!(extract_lump_name(b" \0\0\0\0\0\0\0", 0), Ok(" "));
    assert_eq!(extract_lump_name(b"        ", 0), Ok("        "));
    assert_eq!(extract_lump_name(b"A B\0 \x01\0\0", 0), Ok("A B"));
}

#[test]
fn lump_name_takes_every_byte_from_space_to_tilde() {
    for byte in 0x20..=0x7Eu8 {
        let padded = [b'A', byte, b'Z', 0, 0, 0, 0, 0];
        let name = extract_lump_name(&padded, 4).unwrap();
        assert_eq!(name.as_bytes(), &padded[..3]);
    }
}

#[test]
fn lump_name_rejects_unprintable_bytes() {
    for byte in (0x01..0x20u8).chain(0x7F..=0xFFu8) {
        let padded = [b'A', byte, b'Z', 0, 0, 0, 0, 0];
        assert_eq!(
            extract_lump_name(&padded, 9),
            Err(WadError::InvalidLumpName { index: 9 })
        );
    }
    assert_eq!(
        extract_lump_name(b"E1\x1f1\0\0\0\0", 7),
        Err(WadError::InvalidLumpName { index: 7 })
    );
    assert_eq!(
        extract_lump_name(b"AB\x7fD\0\0\0\0", 2),
        Err(WadError::InvalidLumpName { index: 2 })
    );
    assert_eq!(
        extract_lump_name(&[0x41, 0xC3, 0xA9, 0, 0, 0, 0, 0], 1),
        Err(WadError::InvalidLumpName { index: 1 })
    );
    assert_eq!(extract_lump_name(b"A~!\0\0\0\0\0", 1), Ok("A~!"));
}

#[test]
fn level_marker_grammar() {
    assert!(is_map_name("E1M1"));
    assert!(is_map_name("E9M0"));
    assert!(is_map_name("MAP01"));
    assert!(is_map_name("MAP32"));
    assert!(!is_map_name("E1M"));
    assert!(!is_map_name("E1M10"));
    assert!(!is_map_name("MAP1"));
    assert!(!is_map_name("MAPA1"));
    assert!(!is_map_name("ExM1"));
    assert!(!is_map_name("e1m1"));
    assert!(!is_map_name(""));
}

#[test]
fn texture_and_font_names() {
    assert!(is_texture_name("TEXTURE1"));
    assert!(is_texture_name("TEXTURE2"));
    assert!(!is_texture_name("TEXTURE"));
    assert!(!is_texture_name("TEXTUREA"));
    assert!(!is_texture_name("TEXTURE12"));
    assert!(is_font_name("STCFN033"));
    assert!(is_font_name("FONTA01"));
    assert!(!is_font_name("STCFN3"));
    assert!(!is_font_name("STBFN033"));
    assert!(is_ascii_digit(b'0'));
    assert!(is_ascii_digit(b'9'));
    assert!(!is_ascii_digit(b'/'));
    assert!(!is_ascii_digit(b':'));
}

#[test]
fn vertex_from_lump() {
    let lump = vertex_lump(&[(0, 0), (10, 5), (-3, 8)]);
    assert_eq!(Vertex::from_lump(&lump, 0), Vertex { x: 0, y: 0 });
    assert_eq!(Vertex::from_lump(&lump, 1), Vertex { x: 10, y: 5 });
    assert_eq!(Vertex::from_lump(&lump, 2), Vertex { x: -3, y: 8 });
}

#[test]
fn vertex_scale_rounds_toward_zero() {
    let v = Vertex { x: 7, y: -7 };
    assert_eq!(v.scale(1, 2), Vertex { x: 3, y: -3 });
    assert_eq!(v.scale(3, 2), Vertex { x: 10, y: -10 });
    assert_eq!(v.scale(1, -2), Vertex { x: -3, y: 3 });
    assert_eq!(v.scale(-1, -2), Vertex { x: 3, y: -3 });
    assert_eq!(Vertex { x: 100, y: 0 }.scale(3, 4), Vertex { x: 75, y: 0 });
}

#[test]
fn linedef_from_lump() {
    let vertexes = vertex_lump(&[(0, 0), (10, 5), (-3, 8)]);
    let mut lump = vec![0u8; 14];
    for v in [2u16, 1, 0x0004, 7, 9, 0, 1] {
        le16(&mut lump, v);
    }
    let line = LineDef::from_lump(&lump, 1, &vertexes);
    assert_eq!(line.v1, Vertex { x: -3, y: 8 });
    assert_eq!(line.v2, Vertex { x: 10, y: 5 });
    assert_eq!(line.flags, 4);
    assert_eq!(line.special_type, 7);
    assert_eq!(line.sector_tag, 9);
    assert_eq!(line.right_side_idx, 0);
    assert_eq!(line.left_side_idx, 1);
}

#[test]
fn sidedef_from_lump() {
    let mut lump = Vec::new();
    lei16(&mut lump, -4);
    lei16(&mut lump, 12);
    name8(&mut lump, "UPPER");
    name8(&mut lump, "-");
    name8(&mut lump, "midtex12");
    le16(&mut lump, 3);
    let side = SideDef::from_lump(&lump, 0);
    assert_eq!(side.x_offset, -4);
    assert_eq!(side.y_offset, 12);
    assert_eq!(side.upper_texture_key, hash_lump_name(b"UPPER"));
    assert_eq!(side.lower_texture_key, 0x2D);
    assert_eq!(side.middle_texture_key, hash_lump_name(b"MIDTEX12"));
    assert_eq!(side.sector_idx, 3);
}

#[test]
fn sector_from_lump() {
    let mut lump = vec![0u8; 26];
    lei16(&mut lump, -16);
    lei16(&mut lump, 128);
    name8(&mut lump, "FLOOR4_8");
    name8(&mut lump, "CEIL3_5");
    le16(&mut lump, 160);
    le16(&mut lump, 9);
    le16(&mut lump, 2);
    let sector = Sector::from_lump(&lump, 1);
    assert_eq!(sector.floor_height, -16);
    assert_eq!(sector.ceiling_height, 128);
    assert_eq!(sector.floor_flat_key, hash_lump_name(b"FLOOR4_8"));
    assert_eq!(sector.ceiling_flat_key, hash_lump_name(b"CEIL3_5"));
    assert_eq!(sector.light_level, 160);
    assert_eq!(sector.special_type, 9);
    assert_eq!(sector.tag_nr, 2);
}

fn node_record(ox: i16, oy: i16, dx: i16, dy: i16, right: u16, left: u16) -> Vec<u8> {
    let mut rec = Vec::new();
    for v in [ox, oy, dx, dy] {
        lei16(&mut rec, v);
    }
    for _ in 0..8 {
        lei16(&mut rec, 0);
    }
    le16(&mut rec, right);
    le16(&mut rec, left);
    rec
}

#[test]
fn point_north_of_an_eastward_line_is_left() {
    let node = BspNode::from_lump(&node_record(0, 0, 1, 0, 11, 22), 0);
    assert_eq!(node.child_indices_based_on_point_pos(Vertex { x: 5, y: 1 }), (22, 11));
}

#[test]
fn point_south_of_an_eastward_line_is_right() {
    let node = BspNode::from_lump(&node_record(0, 0, 1, 0, 11, 22), 0);
    assert_eq!(node.child_indices_based_on_point_pos(Vertex { x: 5, y: -1 }), (11, 22));
}

#[test]
fn point_on_the_line_is_left() {
    let node = BspNode::from_lump(&node_record(0, 0, 1, 0, 11, 22), 0);
    assert_eq!(node.child_indices_based_on_point_pos(Vertex { x: -9, y: 0 }), (22, 11));
}

#[test]
fn point_side_far_from_the_line_does_not_overflow() {
    let node = BspNode::from_lump(&node_record(-32768, 32767, 32767, -32768, 1, 2), 0);
    let far = Vertex { x: i32::MAX, y: i32::MAX };
    // cross = (x - ox) * dy - (y - oy) * dx, both products beyond 32 bits
    let cross = (far.x as i128 + 32768) * (-32768) - (far.y as i128 - 32767) * 32767;
    assert!(cross < 0);
    assert_eq!(node.child_indices_based_on_point_pos(far), (2, 1));
    let other = Vertex { x: i32::MIN, y: i32::MIN };
    assert_eq!(node.child_indices_based_on_point_pos(other), (1, 2));
}

#[test]
fn second_node_of_a_lump() {
    let mut lump = node_record(0, 0, 1, 0, 1, 2);
    lump.extend(node_record(64, -64, 0, -5, 0x8000, 0x8001));
    let node = BspNode::from_lump(&lump, 1);
    // direction south: east of the line is its left
    assert_eq!(node.child_indices_based_on_point_pos(Vertex { x: 65, y: 0 }), (0x8001, 0x8000));
    assert_eq!(node.child_indices_based_on_point_pos(Vertex { x: 63, y: 0 }), (0x8000, 0x8001));
}

#[test]
fn child_index_top_bit_marks_a_leaf() {
    assert_eq!(NodeRef::from_raw(0), NodeRef::Internal(0));
    assert_eq!(NodeRef::from_raw(0x7fff), NodeRef::Internal(0x7fff));
    assert_eq!(NodeRef::from_raw(0x8000), NodeRef::Leaf(0));
    assert_eq!(NodeRef::from_raw(0x8005), NodeRef::Leaf(5));
    assert_eq!(NodeRef::from_raw(0xffff), NodeRef::Leaf(0x7fff));
}

#[test]
fn seg_from_lump() {
    let vertexes = vertex_lump(&[(0, 0), (10, 5), (-3, 8)]);
    let mut lump = Vec::new();
    for v in [1u16, 2, 32768, 4, 0] {
        le16(&mut lump, v);
    }
    lei16(&mut lump, -7);
    for v in [0u16, 1, 65535, 0, 1] {
        le16(&mut lump, v);
    }
    lei16(&mut lump, 0);
    let seg = Seg::from_lump(&lump, 0, &vertexes);
    assert_eq!(seg.start, Vertex { x: 10, y: 5 });
    assert_eq!(seg.end, Vertex { x: -3, y: 8 });
    assert_eq!(seg.angle, 32768);
    assert_eq!(seg.linedef_idx, 4);
    assert!(seg.direction_same);
    assert_eq!(seg.offset, -7);
    let seg = Seg::from_lump(&lump, 1, &vertexes);
    assert_eq!(seg.start, Vertex { x: 0, y: 0 });
    assert_eq!(seg.angle, 65535);
    assert!(!seg.direction_same);
}

#[test]
fn thing_from_record() {
    let mut rec = Vec::new();
    lei16(&mut rec, -100);
    lei16(&mut rec, 200);
    lei16(&mut rec, 270);
    le16(&mut rec, 3004);
    le16(&mut rec, 0x0F);
    let thing = Thing::from(&rec);
    assert_eq!(thing.pos, Vertex { x: -100, y: 200 });
    assert_eq!(thing.angle, 270);
    assert_eq!(thing.type_code(), 3004);
    assert!(thing.is_waiting_in_ambush());
}

#[test]
fn thing_skill_levels() {
    let with_flags = |flags: u16| {
        let mut rec = vec![0u8; 8];
        le16(&mut rec, flags);
        Thing::from(&rec)
    };
    let easy = with_flags(0x01);
    assert!(easy.is_on_skill_level(0));
    assert!(easy.is_on_skill_level(1));
    assert!(easy.is_on_skill_level(2));
    assert!(!easy.is_on_skill_level(3));
    assert!(!easy.is_on_skill_level(4));
    let medium = with_flags(0x02);
    assert!(medium.is_on_skill_level(3));
    assert!(!medium.is_on_skill_level(1));
    let hard = with_flags(0x04);
    assert!(hard.is_on_skill_level(4));
    assert!(hard.is_on_skill_level(5));
    assert!(!hard.is_on_skill_level(6));
    assert!(!hard.is_waiting_in_ambush());
    let multi = with_flags(0x17);
    assert!(!multi.is_on_skill_level(0));
    assert!(!multi.is_on_skill_level(3));
    let none = with_flags(0);
    assert!(none.is_on_skill_level(0));
    assert!(!none.is_on_skill_level(1));
}
