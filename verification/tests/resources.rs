use bytes::Bytes;
use rustoom::error::WadError;
use rustoom::font::{font_color, glyph_index, Font};
use rustoom::game::{
    DoomGame, EventEffect, Key, KeyEvent, Motion, Step, KEY_CURS_LEFT, KEY_CURS_RIGHT,
    KEY_MOVE_FWD, KEY_SHOOT, KEY_STRAFE_LEFT, KEY_USE, KEY_ZOOM_IN,
};
use rustoom::graphics::Graphics;
use rustoom::map_items::Vertex;
use rustoom::painter::RGB;
use rustoom::palette::{Palette, PaletteError};
use rustoom::pixmap::{ColorMapper, PixMap, PixMapKind, Texture};
use rustoom::sdl_wrapper::{SdlConfiguration, SleepKind};
use rustoom::things::ThingType;
use rustoom::utils::hash_lump_name;

fn le16(out: &mut Vec<u8>, v: u16) {
    out.push((v & 0xff) as u8);
    out.push((v >> 8) as u8);
}

fn le32(out: &mut Vec<u8>, v: u32) {
    le16(out, (v & 0xffff) as u16);
    le16(out, (v >> 16) as u16);
}

fn name8(out: &mut Vec<u8>, name: &str) {
    let mut padded = [0u8; 8];
    padded[..name.len()].copy_from_slice(name.as_bytes());
    out.extend_from_slice(&padded);
}

fn patch(width: u16, height: u16, left: i16, top: i16) -> Bytes {
    let mut out = Vec::new();
    for v in [width, height, left as u16, top as u16] {
        le16(&mut out, v);
    }
    for _ in 0..width {
        le32(&mut out, 8 + 4 * width as u32);
    }
    out.push(0xFF);
    Bytes::from(out)
}

#[test]
fn vertex_translation() {
    let a = Vertex { x: 3, y: -4 };
    let b = Vertex { x: 10, y: 20 };
    assert_eq!(a + b, Vertex { x: 13, y: 16 });
    assert_eq!(a - b, Vertex { x: -7, y: -24 });
    assert_eq!(b - b, Vertex { x: 0, y: 0 });
    assert_eq!((a + b) - b, a);
}

#[test]
fn placeholder_and_empty_pixel_maps() {
    let empty = PixMap::new_empty();
    assert!(empty.is_empty());
    assert_eq!((empty.width(), empty.height()), (0, 0));
    assert_eq!(empty.kind(), PixMapKind::PlaceHolder);
    assert_eq!((empty.x_offset(), empty.y_offset()), (0, 0));
    let holder = PixMap::new_placeholder(16, 65537);
    assert_eq!((holder.width(), holder.height()), (16, 1));
    assert!(!holder.is_empty());
    assert!(PixMap::new_placeholder(0, 9).is_empty());
    assert!(PixMap::new_placeholder(9, 0).is_empty());
    assert!(holder.data().is_empty());
}

#[test]
fn flat_has_one_row_to_64_bytes() {
    let flat = PixMap::from_flat(&Bytes::from(vec![7u8; 4096]));
    assert_eq!((flat.width(), flat.height()), (64, 64));
    assert_eq!(flat.kind(), PixMapKind::Flat);
    assert_eq!(flat.data().len(), 4096);
    assert_eq!((flat.x_offset(), flat.y_offset()), (0, 0));
    assert_eq!(PixMap::from_flat(&Bytes::from(vec![7u8; 130])).height(), 2);
    assert!(PixMap::from_flat(&Bytes::from(vec![7u8; 63])).is_empty());
}

#[test]
fn patch_header() {
    let pixmap = PixMap::from_patch(&patch(3, 7, 5, -9));
    assert_eq!((pixmap.width(), pixmap.height()), (3, 7));
    assert_eq!(pixmap.kind(), PixMapKind::Patch);
    assert_eq!((pixmap.x_offset(), pixmap.y_offset()), (-5, 9));
    let copy = pixmap.clone();
    assert_eq!((copy.width(), copy.height()), (3, 7));
    assert_eq!(copy.data(), pixmap.data());
}

#[test]
fn texture_collects_patches_in_order() {
    let mut texture = Texture::new(128, 64, 2);
    assert_eq!((texture.width(), texture.height()), (128, 64));
    assert_eq!(texture.patch_count(), 0);
    texture.add_patch(&patch(3, 7, 0, 0), -1, 2);
    texture.add_patch(&patch(4, 8, 0, 0), 30, -40);
    assert_eq!(texture.patch_count(), 2);
    assert_eq!(texture.patch(0).pixmap.width(), 3);
    assert_eq!((texture.patch(0).x_orig, texture.patch(0).y_orig), (-1, 2));
    assert_eq!(texture.patch(1).pixmap.height(), 8);
    assert_eq!((texture.patch(1).x_orig, texture.patch(1).y_orig), (30, -40));
}

#[test]
fn palette_without_data_maps_to_grey() {
    let pal = Palette::new();
    assert!(!pal.is_initialized());
    assert_eq!(pal.byte2rgb(0), RGB { r: 0, g: 0, b: 0 });
    assert_eq!(pal.byte2rgb(77), RGB { r: 77, g: 77, b: 77 });
    assert!(pal.get_main_palette().is_empty());
}

fn two_palettes() -> Palette {
    let mut playpal = Vec::new();
    for i in 0..256u32 {
        playpal.extend_from_slice(&[i as u8, 1, 2]);
    }
    for i in 0..256u32 {
        playpal.extend_from_slice(&[9, i as u8, 8]);
    }
    playpal.extend_from_slice(&[0u8; 100]);
    let mut colormap: Vec<u8> = (0..256u32).map(|i| i as u8).collect();
    colormap.extend((0..256u32).map(|i| (255 - i) as u8));
    let mut pal = Palette::new();
    pal.init_palettes(&Bytes::from(playpal));
    assert!(!pal.is_initialized());
    pal.init_colormaps(&Bytes::from(colormap));
    assert!(pal.is_initialized());
    pal
}

#[test]
fn palette_selection() {
    let mut pal = two_palettes();
    assert_eq!(pal.byte2rgb(5), RGB { r: 5, g: 1, b: 2 });
    assert_eq!(pal.select_palette(1), Ok(()));
    assert_eq!(pal.byte2rgb(5), RGB { r: 9, g: 5, b: 8 });
    assert_eq!(pal.select_colormap(1), Ok(()));
    assert_eq!(pal.byte2rgb(5), RGB { r: 9, g: 250, b: 8 });
    assert_eq!(pal.select_palette(0), Ok(()));
    assert_eq!(pal.byte2rgb(255), RGB { r: 0, g: 1, b: 2 });
    assert_eq!(pal.get_main_palette().len(), 768);
    assert_eq!(&pal.get_main_palette()[3..6], &[1u8, 1, 2]);
}

#[test]
fn palette_selection_out_of_range() {
    let mut pal = two_palettes();
    assert_eq!(pal.select_palette(1), Ok(()));
    assert_eq!(
        pal.select_palette(2),
        Err(PaletteError::InvalidPalette { index: 2, count: 2 })
    );
    assert_eq!(
        pal.select_colormap(7),
        Err(PaletteError::InvalidColormap { index: 7, count: 2 })
    );
    // a refused selection leaves the earlier one in place
    assert_eq!(pal.byte2rgb(5), RGB { r: 9, g: 5, b: 8 });
    let mut none = Palette::new();
    assert_eq!(
        none.select_palette(0),
        Err(PaletteError::InvalidPalette { index: 0, count: 0 })
    );
}

#[test]
fn glyph_of_a_character() {
    assert_eq!(glyph_index(b'!'), 0);
    assert_eq!(glyph_index(b'A'), 32);
    assert_eq!(glyph_index(b'_'), 62);
    assert_eq!(glyph_index(b'`'), 6);
    assert_eq!(glyph_index(b'a'), 32);
    assert_eq!(glyph_index(b'z'), 57);
    assert_eq!(glyph_index(b'{'), 27);
    assert_eq!(glyph_index(b'|'), 63);
    assert_eq!(glyph_index(b'}'), 29);
    assert_eq!(glyph_index(b'~'), 61);
    assert_eq!(glyph_index(127), 0);
    assert_eq!(glyph_index(200), 0);
    for byte in 0..=255u8 {
        assert!(glyph_index(byte) < 64);
    }
}

#[test]
fn font_colour_is_scaled_by_the_grey_level() {
    let colour = RGB { r: 255, g: 128, b: 0 };
    assert_eq!(font_color(colour, 255), colour);
    assert_eq!(font_color(colour, 0), RGB { r: 0, g: 0, b: 0 });
    assert_eq!(font_color(colour, 128), RGB { r: 128, g: 64, b: 0 });
    assert_eq!(font_color(RGB { r: 160, g: 0, b: 7 }, 100), RGB { r: 62, g: 0, b: 2 });
}

#[test]
fn new_font_has_no_glyph() {
    let font = Font::new();
    assert!(!font.is_complete());
    for idx in 0..64 {
        assert!(font.glyph(idx).is_empty());
    }
    assert_eq!(font.grayscale().len(), 256);
    assert_eq!(font.grayscale()[0], 0);
    assert_eq!(font.grayscale()[255], 255);
    assert_eq!(font.grayscale()[99], 99);
}

#[test]
fn glyph_lumps_fill_the_slot_of_their_name() {
    let mut font = Font::new();
    font.add_font_lump("STCFN033", &patch(1, 1, 0, 0));
    font.add_font_lump("STCFN095", &patch(2, 1, 0, 0));
    font.add_font_lump("STCFN121", &patch(3, 1, 0, 0));
    font.add_font_lump("FONTA01", &patch(4, 1, 0, 0));
    font.add_font_lump("FONTA59", &patch(5, 1, 0, 0));
    assert_eq!(font.glyph(0).width(), 4);
    assert_eq!(font.glyph(62).width(), 2);
    assert_eq!(font.glyph(63).width(), 3);
    assert_eq!(font.glyph(58).width(), 5);
    assert!(font.glyph(1).is_empty());
    // slot 63 is shared by two codes
    font.add_font_lump("STCFN124", &patch(6, 1, 0, 0));
    assert_eq!(font.glyph(63).width(), 6);
}

#[test]
fn glyph_lumps_with_long_numbers() {
    let mut font = Font::new();
    font.add_font_lump("STCFN0000000033", &patch(2, 1, 0, 0));
    font.add_font_lump("FONTA000000000000002", &patch(3, 1, 0, 0));
    font.add_font_lump("STCFN4000000000", &patch(4, 1, 0, 0));
    font.add_font_lump("FONTA4294967263", &patch(5, 1, 0, 0));
    assert_eq!(font.glyph(0).width(), 2);
    assert_eq!(font.glyph(1).width(), 3);
    for idx in 2..64 {
        assert!(font.glyph(idx).is_empty(), "slot {}", idx);
    }
}

#[test]
fn glyph_lumps_of_other_names_are_ignored() {
    let mut font = Font::new();
    for name in ["STCFN032", "STCFN096", "STCFN0A3", "FONTA00", "FONTA64", "STCFN3", "WALL0033", "STCFN"] {
        font.add_font_lump(name, &patch(1, 1, 0, 0));
    }
    for idx in 0..64 {
        assert!(font.glyph(idx).is_empty(), "slot {}", idx);
    }
}

#[test]
fn font_is_complete_with_its_first_58_glyphs() {
    let mut font = Font::new();
    for code in 33..=89 {
        font.add_font_lump(&format!("STCFN{:03}", code), &patch(1, 1, 0, 0));
    }
    assert!(!font.is_complete());
    font.add_font_lump("STCFN090", &patch(1, 1, 0, 0));
    assert!(font.is_complete());
    // a glyph without pixels does not count
    font.add_font_lump("STCFN040", &patch(0, 5, 0, 0));
    assert!(!font.is_complete());
}

#[test]
fn grey_level_is_the_greatest_channel() {
    let mut playpal = vec![0u8; 768];
    playpal[0..3].copy_from_slice(&[10, 20, 30]);
    playpal[3..6].copy_from_slice(&[200, 20, 30]);
    playpal[6..9].copy_from_slice(&[10, 99, 30]);
    playpal[765..768].copy_from_slice(&[1, 1, 255]);
    let mut font = Font::new();
    font.add_font_lump("STCFN033", &patch(1, 1, 0, 0));
    font.compute_grayscale(&Bytes::from(playpal));
    assert_eq!(&font.grayscale()[0..4], &[30u8, 200, 99, 0]);
    assert_eq!(font.grayscale()[255], 255);
    assert!(!font.glyph(0).is_empty());
}

#[test]
fn patches_and_flats_by_key() {
    let mut gfx = Graphics::new();
    assert!(gfx.get_patch(hash_lump_name(b"DOOR1")).is_none());
    gfx.add_patch("DOOR1", &patch(3, 7, 0, 0));
    gfx.add_flat("DOOR1", &Bytes::from(vec![1u8; 128]));
    gfx.add_patch("door2", &patch(4, 8, 0, 0));
    let p = gfx.get_patch(hash_lump_name(b"DOOR1")).unwrap();
    assert_eq!((p.width(), p.height()), (3, 7));
    let f = gfx.get_flat(hash_lump_name(b"DOOR1")).unwrap();
    assert_eq!((f.width(), f.height()), (64, 2));
    assert_eq!(gfx.get_patch(hash_lump_name(b"DOOR2")).unwrap().width(), 4);
    assert!(gfx.get_flat(hash_lump_name(b"DOOR2")).is_none());
    // a later lump of the same name replaces the earlier
    gfx.add_patch("DOOR1", &patch(9, 9, 0, 0));
    assert_eq!(gfx.get_patch(hash_lump_name(b"DOOR1")).unwrap().width(), 9);
}

fn pnames(names: &[&str]) -> Bytes {
    let mut out = Vec::new();
    le32(&mut out, names.len() as u32);
    for name in names {
        name8(&mut out, name);
    }
    Bytes::from(out)
}

/// A texture lump of two definitions: SKY1 of two patches, WALL of one.
fn textures() -> Bytes {
    let mut out = Vec::new();
    le32(&mut out, 2);
    le32(&mut out, 12);
    le32(&mut out, 12 + 42);
    name8(&mut out, "SKY1");
    le32(&mut out, 0);
    le16(&mut out, 256);
    le16(&mut out, 128);
    le32(&mut out, 0);
    le16(&mut out, 2);
    for (x, y, idx) in [(0i16, 0i16, 1u16), (-8, 16, 0)] {
        le16(&mut out, x as u16);
        le16(&mut out, y as u16);
        le16(&mut out, idx);
        le32(&mut out, 0);
    }
    name8(&mut out, "WALL");
    le32(&mut out, 0);
    le16(&mut out, 64);
    le16(&mut out, 72);
    le32(&mut out, 0);
    le16(&mut out, 1);
    le16(&mut out, 5);
    le16(&mut out, 6);
    le16(&mut out, 2);
    le32(&mut out, 0);
    out.push(0);
    Bytes::from(out)
}

#[test]
fn patch_name_table_must_hold_its_count() {
    let mut gfx = Graphics::new();
    assert_eq!(gfx.set_patch_names(&Bytes::new()), Err(WadError::PnamesTooSmall));
    assert_eq!(gfx.set_patch_names(&Bytes::from(vec![0u8; 4])), Err(WadError::PnamesTooSmall));
    let mut short = pnames(&["A", "B"]).to_vec();
    short.pop();
    assert_eq!(gfx.set_patch_names(&Bytes::from(short)), Err(WadError::PnamesTooSmall));
    assert_eq!(gfx.set_patch_names(&pnames(&["A", "B"])), Ok(()));
    assert_eq!(gfx.set_patch_names(&Bytes::from(vec![0u8; 5])), Ok(()));
}

#[test]
fn texture_is_composed_of_its_patches() {
    let mut gfx = Graphics::new();
    gfx.add_patch("SKYA", &patch(3, 7, 0, 0));
    gfx.add_patch("SKYB", &patch(4, 8, 0, 0));
    assert_eq!(gfx.set_patch_names(&pnames(&["SKYA", "SKYB", "BRICK"])), Ok(()));
    assert_eq!(gfx.add_textures(&textures()), Ok(()));
    let key = hash_lump_name(b"SKY1");
    assert!(gfx.texture_is_resolvable(key));
    let sky = gfx.get_texture(key).unwrap();
    assert_eq!((sky.width(), sky.height()), (256, 128));
    assert_eq!(sky.patch_count(), 2);
    assert_eq!(sky.patch(0).pixmap.width(), 4);
    assert_eq!((sky.patch(0).x_orig, sky.patch(0).y_orig), (0, 0));
    assert_eq!(sky.patch(1).pixmap.width(), 3);
    assert_eq!((sky.patch(1).x_orig, sky.patch(1).y_orig), (-8, 16));
    // the patch named BRICK was never added
    assert!(!gfx.texture_is_resolvable(hash_lump_name(b"WALL")));
    gfx.add_patch("BRICK", &patch(5, 5, 0, 0));
    assert!(gfx.texture_is_resolvable(hash_lump_name(b"WALL")));
    let wall = gfx.get_texture(hash_lump_name(b"WALL")).unwrap();
    assert_eq!((wall.width(), wall.height(), wall.patch_count()), (64, 72, 1));
    assert_eq!((wall.patch(0).x_orig, wall.patch(0).y_orig), (5, 6));
    // no texture of that name
    assert!(gfx.texture_is_resolvable(hash_lump_name(b"SKY2")));
    assert!(gfx.get_texture(hash_lump_name(b"SKY2")).is_none());
}

#[test]
fn texture_lump_errors() {
    let mut gfx = Graphics::new();
    assert_eq!(
        gfx.add_textures(&Bytes::from(vec![0u8; 8])),
        Err(WadError::TexturesTooSmall { len: 8 })
    );
    let mut lump = Vec::new();
    le32(&mut lump, 3);
    lump.extend_from_slice(&[0u8; 12]);
    assert_eq!(
        gfx.add_textures(&Bytes::from(lump)),
        Err(WadError::TexturesTooSmall { len: 16 })
    );
    // the second definition is cut short by one byte
    let mut cut = textures().to_vec();
    cut.pop();
    cut.pop();
    let len = cut.len();
    assert_eq!(
        gfx.add_textures(&Bytes::from(cut)),
        Err(WadError::TextureOutOfBounds { entry: 1, len, offset: 54 })
    );
    // a definition that starts near the end
    let mut far = textures().to_vec();
    far[4..8].copy_from_slice(&80u32.to_le_bytes());
    let len = far.len();
    assert_eq!(
        gfx.add_textures(&Bytes::from(far)),
        Err(WadError::TextureOutOfBounds { entry: 0, len, offset: 80 })
    );
    // no definition at all is fine
    let mut none = Vec::new();
    le32(&mut none, 0);
    none.extend_from_slice(&[0u8; 5]);
    assert_eq!(gfx.add_textures(&Bytes::from(none)), Ok(()));
}

#[test]
fn window_configuration() {
    let cfg = SdlConfiguration::new("RusTooM", 480, 360, 2, SleepKind::SLEEP(500));
    assert_eq!(cfg.title(), "RusTooM");
    assert_eq!((cfg.scr_width(), cfg.scr_height(), cfg.pixel_size()), (480, 360, 2));
    assert_eq!(cfg.sleep_kind(), SleepKind::SLEEP(500));
    assert_ne!(SleepKind::NONE, SleepKind::YIELD);
}

#[test]
fn thing_types_compare_by_value() {
    assert_eq!(ThingType::Player(1), ThingType::Player(1));
    assert_ne!(ThingType::Player(1), ThingType::Player(2));
    assert_ne!(ThingType::Ammo(1, 2), ThingType::Ammo(2, 1));
    assert_ne!(ThingType::Key, ThingType::Unknown);
}

#[test]
fn keys_set_and_clear_their_flags() {
    let mut game = DoomGame::new();
    assert_eq!((game.map_idx(), game.key_flags()), (0, 0));
    assert_eq!(game.handle_event(KeyEvent::Down(Key::W), 3), EventEffect::Nothing);
    assert_eq!(game.handle_event(KeyEvent::Down(Key::Left), 3), EventEffect::Nothing);
    assert_eq!(game.key_flags(), KEY_MOVE_FWD | KEY_CURS_LEFT);
    assert_eq!(game.handle_event(KeyEvent::Down(Key::W), 3), EventEffect::Nothing);
    assert_eq!(game.key_flags(), KEY_MOVE_FWD | KEY_CURS_LEFT);
    assert_eq!(game.handle_event(KeyEvent::Up(Key::W), 3), EventEffect::Nothing);
    assert_eq!(game.key_flags(), KEY_CURS_LEFT);
    assert_eq!(game.handle_event(KeyEvent::Up(Key::Other), 3), EventEffect::Nothing);
    assert_eq!(game.handle_event(KeyEvent::Down(Key::Other), 3), EventEffect::Nothing);
    assert_eq!(game.handle_event(KeyEvent::Up(Key::Tab), 3), EventEffect::Nothing);
    assert_eq!(game.key_flags(), KEY_CURS_LEFT);
}

#[test]
fn releasing_use_and_shoot_keys() {
    let mut game = DoomGame::new();
    game.handle_event(KeyEvent::Down(Key::A), 1);
    game.handle_event(KeyEvent::Down(Key::Space), 1);
    assert_eq!(game.key_flags(), KEY_STRAFE_LEFT | KEY_USE);
    // releasing a use key keeps nothing but the use flag
    game.handle_event(KeyEvent::Up(Key::E), 1);
    assert_eq!(game.key_flags(), KEY_USE);
    // releasing a shoot key sets the shoot flag
    game.handle_event(KeyEvent::Up(Key::RCtrl), 1);
    assert_eq!(game.key_flags(), KEY_USE | KEY_SHOOT);
    game.handle_event(KeyEvent::Down(Key::LAlt), 1);
    assert_eq!(game.key_flags(), KEY_USE | KEY_SHOOT);
}

#[test]
fn tab_and_page_keys_ask_for_effects() {
    let mut game = DoomGame::new();
    assert_eq!(game.handle_event(KeyEvent::Down(Key::Tab), 3), EventEffect::ToggleAutomap);
    assert_eq!(game.handle_event(KeyEvent::Down(Key::PageUp), 3), EventEffect::Nothing);
    assert_eq!(game.handle_event(KeyEvent::Down(Key::PageDown), 3), EventEffect::LoadMap(1));
    assert_eq!(game.key_flags(), 0);
    assert_eq!(game.map_idx(), 0);
    assert!(game.load_map(2, 3));
    assert_eq!(game.map_idx(), 2);
    assert_eq!(game.handle_event(KeyEvent::Down(Key::PageDown), 3), EventEffect::Nothing);
    assert_eq!(game.handle_event(KeyEvent::Down(Key::PageUp), 3), EventEffect::LoadMap(1));
    assert_eq!(game.handle_event(KeyEvent::Down(Key::PageDown), 0), EventEffect::Nothing);
    assert!(!game.load_map(2, 3));
    assert!(!game.load_map(3, 3));
    assert_eq!(game.map_idx(), 2);
    assert!(game.load_map(0, 3));
    assert_eq!(game.map_idx(), 0);
}

#[test]
fn held_keys_become_the_steps_of_a_frame() {
    let mut game = DoomGame::new();
    assert_eq!(game.update_state(true), Vec::<Step>::new());
    assert_eq!(game.update_state(false), Vec::<Step>::new());
    for key in [Key::Left, Key::Down, Key::D, Key::W, Key::KpPlus] {
        game.handle_event(KeyEvent::Down(key), 1);
    }
    assert_eq!(game.key_flags() & KEY_ZOOM_IN, KEY_ZOOM_IN);
    assert_eq!(
        game.update_state(true),
        vec![
            Step { motion: Motion::RotatePlayer, forward: true },
            Step { motion: Motion::MovePlayer, forward: false },
            Step { motion: Motion::MoveAutomapX, forward: true },
            Step { motion: Motion::MoveAutomapY, forward: true },
            Step { motion: Motion::ZoomAutomap, forward: true },
        ]
    );
    assert_eq!(
        game.update_state(false),
        vec![
            Step { motion: Motion::RotatePlayer, forward: true },
            Step { motion: Motion::MovePlayer, forward: false },
            Step { motion: Motion::StrafePlayer, forward: true },
            Step { motion: Motion::MovePlayer, forward: true },
        ]
    );
}

#[test]
fn opposite_keys_cancel() {
    let mut game = DoomGame::new();
    game.handle_event(KeyEvent::Down(Key::Left), 1);
    game.handle_event(KeyEvent::Down(Key::Right), 1);
    assert_eq!(game.key_flags(), KEY_CURS_LEFT | KEY_CURS_RIGHT);
    assert_eq!(game.update_state(false), Vec::<Step>::new());
    game.handle_event(KeyEvent::Up(Key::Left), 1);
    assert_eq!(
        game.update_state(false),
        vec![Step { motion: Motion::RotatePlayer, forward: false }]
    );
    game.handle_event(KeyEvent::Down(Key::A), 1);
    game.handle_event(KeyEvent::Down(Key::S), 1);
    game.handle_event(KeyEvent::Down(Key::KpMinus), 1);
    assert_eq!(
        game.update_state(true),
        vec![
            Step { motion: Motion::RotatePlayer, forward: false },
            Step { motion: Motion::MoveAutomapX, forward: false },
            Step { motion: Motion::MoveAutomapY, forward: false },
            Step { motion: Motion::ZoomAutomap, forward: false },
        ]
    );
}
