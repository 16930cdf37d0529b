//! The container itself: its header, its directory of lumps, and the
//! sorting of each lump into a level or into the shared resources.

use crate::buffer::{bytes_as_slice, bytes_len, bytes_of, bytes_slice};
use crate::error::WadError;
use crate::font::{Font, FontView};
use crate::graphics::{Graphics, GraphicsView};
use crate::map::{map_lump_of, MapData, MapDataView, MapLump};
use crate::map_items::VERTEX_SIZE;
use crate::names::{
    bytes_eq, extract_lump_name, font_name, is_font_name, is_map_name, is_texture_name,
    lemma_name_len_bounds, lump_name_of, map_name, printable_name, str_eq, str_from_utf8,
    texture_name,
};
use crate::palette::{Palette, PaletteView, PALETTE_SIZE};
use crate::utils::{lemma_short_digits_fit, name_len, u16_at, u16_field, u32_at, u32_field};
use bytes::Bytes;
use vstd::prelude::*;
use vstd::slice::slice_subrange;
use vstd::string::StringSliceAdditionalSpecFns;
use vstd::utf8::valid_utf8;

verus! {

/// Offset of the `col`-th column of a patch, as its header gives it.
pub open spec fn column_offset(bytes: Seq<u8>, col: int) -> int {
    u32_at(bytes, 8 + 4 * col)
}

/// The greatest offset among the first `n` columns of a patch.
pub open spec fn max_column_offset(bytes: Seq<u8>, n: int) -> int
    decreases n,
{
    if n <= 0 {
        0
    } else {
        let rest = max_column_offset(bytes, n - 1);
        if column_offset(bytes, n - 1) > rest {
            column_offset(bytes, n - 1)
        } else {
            rest
        }
    }
}

/// Whether the posts that start at `idx` lead to an end mark (`0xFF`)
/// within the lump. A post is a header of three bytes, its second the
/// number of pixels, the pixels, and one closing byte.
pub open spec fn column_ends(bytes: Seq<u8>, idx: int) -> bool
    decreases bytes.len() - idx,
{
    if idx < 0 || idx >= bytes.len() {
        false
    } else if bytes[idx] == 0xFF {
        true
    } else if idx + 3 >= bytes.len() || idx + bytes[idx + 1] + 4 >= bytes.len() {
        false
    } else {
        column_ends(bytes, idx + bytes[idx + 1] + 4)
    }
}

/// Whether a lump has the shape of a patch: a header with a width and a
/// height that are not zero, a full table of column offsets that all lie
/// in the lump, and a well-ended column at the greatest offset.
pub open spec fn looks_like_graphic(bytes: Seq<u8>) -> bool {
    &&& bytes.len() >= 12
    &&& u16_at(bytes, 0) != 0
    &&& u16_at(bytes, 2) != 0
    &&& bytes.len() >= 8 + 4 * u16_at(bytes, 0)
    &&& max_column_offset(bytes, u16_at(bytes, 0)) < bytes.len()
    &&& column_ends(bytes, max_column_offset(bytes, u16_at(bytes, 0)))
}

/// The greatest offset grows with the number of columns counted.
pub proof fn lemma_max_column_offset_grows(bytes: Seq<u8>, a: int, b: int)
    requires
        0 <= a <= b,
    ensures
        max_column_offset(bytes, a) <= max_column_offset(bytes, b),
    decreases b,
{
    if a < b {
        lemma_max_column_offset_grows(bytes, a, b - 1);
    }
}

/// Tells a patch from other lumps by its shape.
pub fn quick_check_if_lump_is_graphic(bytes: &[u8]) -> (r: bool)
    ensures
        r == looks_like_graphic(bytes@),
{
    let len: usize = bytes.len();
    if len < 12 {
        return false;
    }
    let width: usize = u16_field(bytes, 0) as usize;
    let height: usize = u16_field(bytes, 2) as usize;
    if width == 0 || height == 0 || len < 8 + 4 * width {
        return false;
    }
    let mut max_idx: usize = 0;
    let mut col: usize = 0;
    while col < width
        invariant
            col <= width <= 0xffff,
            len == bytes@.len(),
            len >= 8 + 4 * width,
            len >= 12,
            width == u16_at(bytes@, 0),
            width != 0,
            u16_at(bytes@, 2) != 0,
            max_idx == max_column_offset(bytes@, col as int),
            max_idx < len || col == 0,
        decreases width - col,
    {
        let col_ofs: usize = u32_field(bytes, 8 + 4 * col) as usize;
        if col_ofs > max_idx {
            max_idx = col_ofs;
        }
        if len <= max_idx {
            proof {
                lemma_max_column_offset_grows(bytes@, col + 1, width as int);
            }
            return false;
        }
        col += 1;
    }
    let ghost start: int = max_idx as int;
    loop
        invariant
            len == bytes@.len(),
            max_idx < len,
            looks_like_graphic(bytes@) == column_ends(bytes@, start),
            column_ends(bytes@, start) == column_ends(bytes@, max_idx as int),
        decreases len - max_idx,
    {
        if bytes[max_idx] == 0xFF {
            return true;
        }
        if len - max_idx <= 3 {
            return false;
        }
        let step: usize = bytes[max_idx + 1] as usize + 4;
        if step >= len - max_idx {
            return false;
        }
        max_idx += step;
    }
}

/// The contents of a loaded container.
pub ghost struct WadView {
    pub maps: Seq<MapDataView>,
    pub pal: PaletteView,
    pub gfx: GraphicsView,
    pub font: FontView,
}

/// Where the sorting of lumps stands: what was collected, whether flats
/// are being read, and the level whose lumps are being read, if any.
pub ghost struct ParseState {
    pub wad: WadView,
    pub is_flats: bool,
    pub current: Option<MapDataView>,
}

/// A lump as the directory presents it.
pub ghost struct Lump {
    pub index: usize,
    pub name: Seq<char>,
    pub name_bytes: Seq<u8>,
    pub data: Seq<u8>,
}

/// Number of directory entries, from the header.
pub open spec fn lump_count(bytes: Seq<u8>) -> int {
    u32_at(bytes, 4)
}

/// Offset of the `idx`-th directory entry.
pub open spec fn entry_offset(bytes: Seq<u8>, idx: int) -> int {
    u32_at(bytes, 8) + 16 * idx
}

/// Offset of the lump of the `idx`-th directory entry.
pub open spec fn entry_start(bytes: Seq<u8>, idx: int) -> int {
    u32_at(bytes, entry_offset(bytes, idx))
}

/// Size of the lump of the `idx`-th directory entry.
pub open spec fn entry_size(bytes: Seq<u8>, idx: int) -> int {
    u32_at(bytes, entry_offset(bytes, idx) + 4)
}

/// The padded name of the `idx`-th directory entry.
pub open spec fn entry_name(bytes: Seq<u8>, idx: int) -> Seq<u8> {
    bytes.subrange(entry_offset(bytes, idx) + 8, entry_offset(bytes, idx) + 16)
}

/// What is wrong with the `idx`-th directory entry, if anything: it lies
/// beyond the file, its name is unprintable, or its lump ends beyond the file.
pub open spec fn entry_fault(bytes: Seq<u8>, idx: int) -> Option<WadError> {
    if entry_offset(bytes, idx) + 16 > bytes.len() {
        Some(WadError::DirectoryOutOfBounds { index: idx as usize })
    } else if !printable_name(entry_name(bytes, idx)) {
        Some(WadError::InvalidLumpName { index: idx as usize })
    } else if entry_start(bytes, idx) + entry_size(bytes, idx) > bytes.len() {
        Some(WadError::LumpTooBig { index: idx as usize })
    } else {
        None
    }
}

/// The lump of the `idx`-th directory entry.
pub open spec fn entry_lump(bytes: Seq<u8>, idx: int) -> Lump {
    Lump {
        index: idx as usize,
        name: lump_name_of(entry_name(bytes, idx)),
        name_bytes: entry_name(bytes, idx).subrange(0, name_len(entry_name(bytes, idx))),
        data: bytes.subrange(
            entry_start(bytes, idx),
            entry_start(bytes, idx) + entry_size(bytes, idx),
        ),
    }
}

impl WadView {
    pub open spec fn empty() -> WadView {
        WadView {
            maps: Seq::empty(),
            pal: PaletteView::empty(),
            gfx: GraphicsView::empty(),
            font: FontView::empty(),
        }
    }

    /// What a collection lacks to be a usable container, if anything.
    pub open spec fn fault(self) -> Option<WadError> {
        if !self.pal.is_initialized() {
            Some(WadError::PaletteMissing)
        } else if self.maps.len() == 0 {
            Some(WadError::MapsMissing)
        } else if !self.font.is_complete() {
            Some(WadError::FontsMissing)
        } else {
            None
        }
    }
}

impl ParseState {
    pub open spec fn initial() -> ParseState {
        ParseState { wad: WadView::empty(), is_flats: false, current: None }
    }

    /// A lump met outside a level that is no level marker goes to the
    /// shared resources by its name, or by its shape where the name says
    /// nothing; a lump of no known kind is passed over.
    pub open spec fn route_global(self, lump: Lump) -> Result<ParseState, WadError> {
        if lump.name == "PLAYPAL"@ {
            if lump.data.len() < PALETTE_SIZE {
                Err(WadError::PaletteMissing)
            } else {
                Ok(
                    ParseState {
                        wad: WadView {
                            pal: self.wad.pal.with_palettes(lump.data),
                            font: self.wad.font.with_grayscale(lump.data),
                            ..self.wad
                        },
                        ..self
                    },
                )
            }
        } else if lump.name == "COLORMAP"@ {
            Ok(
                ParseState {
                    wad: WadView { pal: self.wad.pal.with_colormaps(lump.data), ..self.wad },
                    ..self
                },
            )
        } else if lump.name == "PNAMES"@ {
            match self.wad.gfx.set_patch_names(lump.data) {
                Ok(gfx) => Ok(ParseState { wad: WadView { gfx, ..self.wad }, ..self }),
                Err(e) => Err(e),
            }
        } else if lump.name == "F_START"@ {
            Ok(ParseState { is_flats: true, ..self })
        } else if lump.name == "F_END"@ {
            Ok(ParseState { is_flats: false, ..self })
        } else if texture_name(lump.name_bytes) {
            match self.wad.gfx.add_textures(lump.data) {
                Ok(gfx) => Ok(ParseState { wad: WadView { gfx, ..self.wad }, ..self }),
                Err(e) => Err(e),
            }
        } else if lump.data.len() > 0 && self.is_flats {
            Ok(
                ParseState {
                    wad: WadView {
                        gfx: self.wad.gfx.with_flat(lump.name_bytes, lump.data),
                        ..self.wad
                    },
                    ..self
                },
            )
        } else if looks_like_graphic(lump.data) {
            Ok(
                ParseState {
                    wad: WadView {
                        gfx: self.wad.gfx.with_patch(lump.name_bytes, lump.data),
                        font: if font_name(lump.name_bytes) {
                            self.wad.font.with_glyph(lump.name_bytes, lump.data)
                        } else {
                            self.wad.font
                        },
                        ..self.wad
                    },
                    ..self
                },
            )
        } else {
            Ok(self)
        }
    }

    /// A lump met outside a level: a level marker begins a new level,
    /// anything else goes to the shared resources.
    pub open spec fn route(self, lump: Lump) -> Result<ParseState, WadError> {
        if map_name(lump.name_bytes) {
            Ok(ParseState { current: Some(MapDataView::empty(lump.name)), ..self })
        } else {
            self.route_global(lump)
        }
    }

    /// One lump further. Inside a level, a lump with the name of a level
    /// lump joins it; the first lump of another name ends the level, which
    /// must then be complete and is stored, and that same lump is sorted
    /// as one met outside a level. A vertex lump without a single vertex
    /// makes the level incomplete at once.
    pub open spec fn step(self, lump: Lump) -> Result<ParseState, WadError> {
        match self.current {
            Some(map) => match map_lump_of(lump.name) {
                Some(which) => if which == MapLump::Vertexes && lump.data.len() < VERTEX_SIZE {
                    Err(WadError::IncompleteMap { index: lump.index })
                } else {
                    Ok(ParseState { current: Some(map.with_lump(which, lump.data)), ..self })
                },
                None => if !map.is_complete() {
                    Err(WadError::IncompleteMap { index: lump.index })
                } else {
                    (ParseState {
                        wad: WadView { maps: self.wad.maps.push(map), ..self.wad },
                        current: None,
                        ..self
                    }).route(lump)
                },
            },
            None => self.route(lump),
        }
    }
}

/// The state after the first `n` directory entries, or the first fault met.
pub open spec fn parse_lumps(bytes: Seq<u8>, n: int) -> Result<ParseState, WadError>
    decreases n,
{
    if n <= 0 {
        Ok(ParseState::initial())
    } else {
        match parse_lumps(bytes, n - 1) {
            Err(e) => Err(e),
            Ok(state) => match entry_fault(bytes, n - 1) {
                Some(e) => Err(e),
                None => state.step(entry_lump(bytes, n - 1)),
            },
        }
    }
}

/// The magic of a primary container, `IWAD`, or of an add-on, `PWAD`.
pub open spec fn magic(is_iwad: bool) -> Seq<u8> {
    if is_iwad {
        seq![73u8, 87u8, 65u8, 68u8]
    } else {
        seq![80u8, 87u8, 65u8, 68u8]
    }
}

/// What loading a file yields: the container, or the first fault in
/// header, directory, lumps, or in what was collected. A level still
/// open at the end of the directory is not stored.
pub open spec fn load_outcome(bytes: Seq<u8>, is_iwad: bool) -> Result<WadView, WadError> {
    if bytes.len() <= 16 {
        Err(WadError::TooSmall)
    } else if !valid_utf8(bytes.subrange(0, 4)) {
        Err(WadError::InvalidHeader)
    } else if bytes.subrange(0, 4) != magic(is_iwad) {
        Err(WadError::InvalidKind)
    } else {
        match parse_lumps(bytes, lump_count(bytes)) {
            Err(e) => Err(e),
            Ok(state) => match state.wad.fault() {
                Some(e) => Err(e),
                None => Ok(state.wad),
            },
        }
    }
}

/// All that a container holds: its levels and its shared resources.
pub struct WadData {
    maps: Vec<MapData>,
    pal: Palette,
    gfx: Graphics,
    font: Font,
}

impl View for WadData {
    type V = WadView;

    closed spec fn view(&self) -> WadView {
        WadView {
            maps: Seq::new(self.maps@.len(), |i: int| self.maps@[i]@),
            pal: self.pal@,
            gfx: self.gfx@,
            font: self.font@,
        }
    }
}

/// The level being read, as contracts see it.
pub open spec fn current_view(current: Option<MapData>) -> Option<MapDataView> {
    match current {
        Some(map) => Some(map@),
        None => None,
    }
}

impl WadData {
    /// Loads a container from the bytes of its file. `is_iwad` tells
    /// which kind is expected: a primary container or an add-on.
    pub fn load(wad_bytes: Bytes, is_iwad: bool) -> (r: Result<WadData, WadError>)
        ensures
            match r {
                Ok(wad) => load_outcome(bytes_of(wad_bytes), is_iwad) == Ok::<WadView, WadError>(
                    wad@,
                ),
                Err(e) => load_outcome(bytes_of(wad_bytes), is_iwad) == Err::<WadView, WadError>(e),
            },
    {
        if bytes_len(&wad_bytes) <= 16 {
            return Err(WadError::TooSmall);
        }
        let head = slice_subrange(bytes_as_slice(&wad_bytes), 0, 4);
        if str_from_utf8(head).is_none() {
            return Err(WadError::InvalidHeader);
        }
        let iwad: [u8; 4] = [73, 87, 65, 68];
        let pwad: [u8; 4] = [80, 87, 65, 68];
        assert(iwad@ =~= magic(true));
        assert(pwad@ =~= magic(false));
        let expected: &[u8] = if is_iwad {
            iwad.as_slice()
        } else {
            pwad.as_slice()
        };
        if !bytes_eq(head, expected) {
            return Err(WadError::InvalidKind);
        }
        let mut wad = WadData {
            maps: Vec::new(),
            pal: Palette::new(),
            gfx: Graphics::new(),
            font: Font::new(),
        };
        assert(wad@.maps =~= Seq::empty());
        match wad.parse_wad_lumps(&wad_bytes) {
            Err(e) => {
                return Err(e);
            },
            Ok(()) => {},
        }
        match wad.validate_collected_data() {
            Err(e) => Err(e),
            Ok(()) => Ok(wad),
        }
    }

    pub fn palette(&self) -> (r: &Palette)
        ensures
            r@ == self@.pal,
    {
        &self.pal
    }

    pub fn map_count(&self) -> (r: usize)
        ensures
            r == self@.maps.len(),
    {
        self.maps.len()
    }

    pub fn map_name(&self, idx: usize) -> (r: &str)
        requires
            idx < self@.maps.len(),
        ensures
            r@ == self@.maps[idx as int].name,
    {
        self.maps[idx].name()
    }

    pub fn map(&self, idx: usize) -> (r: &MapData)
        requires
            idx < self@.maps.len(),
        ensures
            r@ == self@.maps[idx as int],
    {
        &self.maps[idx]
    }

    pub fn font(&self) -> (r: &Font)
        ensures
            r@ == self@.font,
    {
        &self.font
    }

    pub fn graphics(&self) -> (r: &Graphics)
        ensures
            r@ == self@.gfx,
    {
        &self.gfx
    }

    /// Sorts every lump of the directory, in order, into what the
    /// container collects.
    fn parse_wad_lumps(&mut self, wad_bytes: &Bytes) -> (r: Result<(), WadError>)
        requires
            bytes_of(*wad_bytes).len() > 16,
            old(self)@ == WadView::empty(),
            old(self)@.font.wf(),
            old(self)@.pal.wf(),
        ensures
            final(self)@.font.wf(),
            match r {
                Ok(()) => match parse_lumps(bytes_of(*wad_bytes), lump_count(bytes_of(*wad_bytes))) {
                    Ok(state) => state.wad == final(self)@,
                    Err(_) => false,
                },
                Err(e) => parse_lumps(bytes_of(*wad_bytes), lump_count(bytes_of(*wad_bytes)))
                    == Err::<ParseState, WadError>(e),
            },
    {
        let raw = bytes_as_slice(wad_bytes);
        let count: usize = u32_field(raw, 4) as usize;
        let dir_offset: u64 = u32_field(raw, 8) as u64;
        let wad_len: usize = bytes_len(wad_bytes);
        let mut is_flats: bool = false;
        let mut currently_parsing_map: Option<MapData> = None;
        let mut lump_idx: usize = 0;
        while lump_idx < count
            invariant
                lump_idx <= count <= 0xffff_ffff,
                raw@ == bytes_of(*wad_bytes),
                wad_len == raw@.len(),
                count == lump_count(raw@),
                dir_offset == u32_at(raw@, 8),
                self@.font.wf(),
                self@.pal.wf(),
                parse_lumps(raw@, lump_idx as int) == Ok::<ParseState, WadError>(
                    ParseState {
                        wad: self@,
                        is_flats,
                        current: current_view(currently_parsing_map),
                    },
                ),
            decreases count - lump_idx,
        {
            let ghost before = ParseState {
                wad: self@,
                is_flats,
                current: current_view(currently_parsing_map),
            };
            let offs: u64 = dir_offset + 16 * (lump_idx as u64);
            if offs + 16 > wad_len as u64 {
                proof {
                    lemma_parse_fault(raw@, lump_idx as int, count as int);
                }
                return Err(WadError::DirectoryOutOfBounds { index: lump_idx });
            }
            let offs: usize = offs as usize;
            let lump_start: u64 = u32_field(raw, offs) as u64;
            let lump_size: u64 = u32_field(raw, offs + 4) as u64;
            let padded = slice_subrange(raw, offs + 8, offs + 16);
            let lump_name: &str = match extract_lump_name(padded, lump_idx) {
                Ok(name) => name,
                Err(e) => {
                    proof {
                        lemma_parse_fault(raw@, lump_idx as int, count as int);
                    }
                    return Err(e);
                },
            };
            let lump_end: u64 = lump_start + lump_size;
            if lump_end > wad_len as u64 {
                proof {
                    lemma_parse_fault(raw@, lump_idx as int, count as int);
                }
                return Err(WadError::LumpTooBig { index: lump_idx });
            }
            let lump_bytes = bytes_slice(wad_bytes, lump_start as usize, lump_end as usize);
            let ghost lump = entry_lump(raw@, lump_idx as int);
            proof {
                lemma_name_len_bounds(padded@);
                assert(lump.name == lump_name@);
                assert(lump.name_bytes == lump_name.spec_bytes());
                assert(lump.data == bytes_of(lump_bytes));
            }
            match self.sort_lump(
                lump_idx,
                lump_name,
                &lump_bytes,
                is_flats,
                currently_parsing_map,
                Ghost(lump),
            ) {
                Ok((flats, current)) => {
                    is_flats = flats;
                    currently_parsing_map = current;
                },
                Err(e) => {
                    proof {
                        lemma_parse_stops(raw@, lump_idx as int + 1, count as int);
                    }
                    return Err(e);
                },
            }
            lump_idx += 1;
        }
        Ok(())
    }

    /// Sorts one lump: the executable form of `ParseState::step`.
    fn sort_lump(
        &mut self,
        lump_idx: usize,
        lump_name: &str,
        lump_bytes: &Bytes,
        is_flats: bool,
        current: Option<MapData>,
        Ghost(lump): Ghost<Lump>,
    ) -> (r: Result<(bool, Option<MapData>), WadError>)
        requires
            old(self)@.font.wf(),
            old(self)@.pal.wf(),
            lump.index == lump_idx,
            lump.name == lump_name@,
            lump.name_bytes == lump_name.spec_bytes(),
            lump.name_bytes.len() <= 8,
            lump.data == bytes_of(*lump_bytes),
        ensures
            final(self)@.font.wf(),
            final(self)@.pal.wf(),
            match r {
                Ok((flats, map)) => (ParseState {
                    wad: old(self)@,
                    is_flats,
                    current: current_view(current),
                }).step(lump) == Ok::<ParseState, WadError>(
                    ParseState { wad: final(self)@, is_flats: flats, current: current_view(map) },
                ),
                Err(e) => (ParseState {
                    wad: old(self)@,
                    is_flats,
                    current: current_view(current),
                }).step(lump) == Err::<ParseState, WadError>(e),
            },
    {
        match current {
            Some(mut map) => {
                match MapLump::from_name(lump_name) {
                    Some(which) => {
                        if which == MapLump::Vertexes && bytes_len(lump_bytes) < VERTEX_SIZE {
                            return Err(WadError::IncompleteMap { index: lump_idx });
                        }
                        let still_parsing: bool = map.add_lump(lump_name, lump_bytes);
                        assert(still_parsing);
                        return Ok((is_flats, Some(map)));
                    },
                    None => {
                        if !map.is_complete() {
                            return Err(WadError::IncompleteMap { index: lump_idx });
                        }
                        let ghost before = self@.maps;
                        self.maps.push(map);
                        assert(self@.maps =~= before.push(map@));
                    },
                }
            },
            None => {},
        }
        if is_map_name(lump_name) {
            return Ok((is_flats, Some(MapData::new(lump_name))));
        }
        let mut flats: bool = is_flats;
        if str_eq(lump_name, "PLAYPAL") {
            if bytes_len(lump_bytes) < PALETTE_SIZE {
                return Err(WadError::PaletteMissing);
            }
            self.pal.init_palettes(lump_bytes);
            self.font.compute_grayscale(lump_bytes);
        } else if str_eq(lump_name, "COLORMAP") {
            self.pal.init_colormaps(lump_bytes);
        } else if str_eq(lump_name, "PNAMES") {
            match self.gfx.set_patch_names(lump_bytes) {
                Err(e) => {
                    return Err(e);
                },
                Ok(()) => {},
            }
        } else if str_eq(lump_name, "F_START") {
            flats = true;
        } else if str_eq(lump_name, "F_END") {
            flats = false;
        } else if is_texture_name(lump_name) {
            match self.gfx.add_textures(lump_bytes) {
                Err(e) => {
                    return Err(e);
                },
                Ok(()) => {},
            }
        } else if bytes_len(lump_bytes) > 0 && is_flats {
            self.gfx.add_flat(lump_name, lump_bytes);
        } else if quick_check_if_lump_is_graphic(bytes_as_slice(lump_bytes)) {
            self.gfx.add_patch(lump_name, lump_bytes);
            if is_font_name(lump_name) {
                proof {
                    let name = lump_name.spec_bytes();
                    lemma_short_digits_fit(name.subrange(5, name.len() as int));
                }
                self.font.add_font_lump(lump_name, lump_bytes);
            }
        }
        Ok((flats, None))
    }

    /// Checks what was collected: palette and colour map, at least one
    /// level, and every required glyph.
    fn validate_collected_data(&self) -> (r: Result<(), WadError>)
        requires
            self@.font.wf(),
        ensures
            match r {
                Ok(()) => self@.fault().is_none(),
                Err(e) => self@.fault() == Some(e),
            },
    {
        if !self.pal.is_initialized() {
            Err(WadError::PaletteMissing)
        } else if self.maps.len() == 0 {
            Err(WadError::MapsMissing)
        } else if !self.font.is_complete() {
            Err(WadError::FontsMissing)
        } else {
            Ok(())
        }
    }
}

/// A file of at most sixteen bytes is refused as too small, whatever it holds.
pub proof fn lemma_short_file_is_refused(bytes: Seq<u8>, is_iwad: bool)
    requires
        bytes.len() <= 16,
    ensures
        load_outcome(bytes, is_iwad) == Err::<WadView, WadError>(WadError::TooSmall),
{
}

/// A file whose first four bytes are not the expected magic is refused,
/// with an error that no other fault gives.
pub proof fn lemma_wrong_magic_is_refused(bytes: Seq<u8>, is_iwad: bool)
    requires
        bytes.len() > 16,
        bytes.subrange(0, 4) != magic(is_iwad),
    ensures
        load_outcome(bytes, is_iwad) == Err::<WadView, WadError>(WadError::InvalidHeader)
            || load_outcome(bytes, is_iwad) == Err::<WadView, WadError>(WadError::InvalidKind),
{
}

/// A file is never accepted as both kinds of container.
pub proof fn lemma_one_kind_only(bytes: Seq<u8>)
    ensures
        load_outcome(bytes, true).is_err() || load_outcome(bytes, false).is_err(),
{
    assert(magic(true)[0] != magic(false)[0]);
}

/// A directory entry whose lump ends beyond the file fails the load,
/// whatever the rest of the file holds.
pub proof fn lemma_lump_beyond_file_fails(bytes: Seq<u8>, is_iwad: bool, idx: int)
    requires
        0 <= idx < lump_count(bytes),
        entry_start(bytes, idx) + entry_size(bytes, idx) > bytes.len(),
    ensures
        load_outcome(bytes, is_iwad).is_err(),
{
    if bytes.len() > 16 && parse_lumps(bytes, idx).is_ok() {
        lemma_parse_fault(bytes, idx, lump_count(bytes));
    } else if bytes.len() > 16 {
        lemma_parse_stops(bytes, idx, lump_count(bytes));
    }
}

/// Where every earlier entry was sorted without fault, a lump that ends
/// beyond the file, behind a directory entry that is itself in the file
/// and well named, fails the load with the error that names that entry.
pub proof fn lemma_lump_too_big(bytes: Seq<u8>, is_iwad: bool, idx: int)
    requires
        bytes.len() > 16,
        valid_utf8(bytes.subrange(0, 4)),
        bytes.subrange(0, 4) == magic(is_iwad),
        0 <= idx < lump_count(bytes),
        parse_lumps(bytes, idx).is_ok(),
        entry_offset(bytes, idx) + 16 <= bytes.len(),
        printable_name(entry_name(bytes, idx)),
        entry_start(bytes, idx) + entry_size(bytes, idx) > bytes.len(),
    ensures
        load_outcome(bytes, is_iwad) == Err::<WadView, WadError>(
            WadError::LumpTooBig { index: idx as usize },
        ),
{
    lemma_parse_fault(bytes, idx, lump_count(bytes));
}

/// A container that loads holds a palette, a colour map, at least one
/// level and every required glyph; each of its levels is complete, and
/// the bounding box of each is that of its vertex lump.
pub proof fn lemma_loaded_is_whole(bytes: Seq<u8>, is_iwad: bool)
    requires
        load_outcome(bytes, is_iwad).is_ok(),
    ensures
        ({
            let wad = load_outcome(bytes, is_iwad).unwrap();
            &&& wad.pal.is_initialized()
            &&& wad.maps.len() >= 1
            &&& wad.font.is_complete()
            &&& forall|i: int|
                0 <= i < wad.maps.len() ==> (#[trigger] wad.maps[i]).is_complete()
                    && wad.maps[i].bounds_agree()
        }),
{
    lemma_levels_are_sound(bytes, lump_count(bytes));
}

/// While the directory is sorted, every level stored is complete with a
/// bounding box that is its vertex lump's own, and the level being read
/// has no vertex lump yet or a bounding box that is its own.
pub proof fn lemma_levels_are_sound(bytes: Seq<u8>, n: int)
    ensures
        match parse_lumps(bytes, n) {
            Ok(state) => {
                &&& forall|i: int|
                    0 <= i < state.wad.maps.len() ==> (#[trigger] state.wad.maps[i]).is_complete()
                        && state.wad.maps[i].bounds_agree()
                &&& match state.current {
                    Some(map) => map.bounds_agree(),
                    None => true,
                }
            },
            Err(_) => true,
        },
    decreases n,
{
    if n > 0 {
        lemma_levels_are_sound(bytes, n - 1);
        match parse_lumps(bytes, n - 1) {
            Ok(state) => {
                if entry_fault(bytes, n - 1).is_none() {
                    let lump = entry_lump(bytes, n - 1);
                    match state.step(lump) {
                        Ok(next) => {
                            assert forall|i: int| 0 <= i < next.wad.maps.len() implies (
                            #[trigger] next.wad.maps[i]).is_complete()
                                && next.wad.maps[i].bounds_agree() by {
                                if i < state.wad.maps.len() {
                                    assert(next.wad.maps[i] == state.wad.maps[i]);
                                }
                            }
                        },
                        Err(_) => {},
                    }
                }
            },
            Err(_) => {},
        }
    }
}

/// A fault at entry `idx`, after a good start, is the outcome of the whole directory.
pub proof fn lemma_parse_fault(bytes: Seq<u8>, idx: int, count: int)
    requires
        0 <= idx < count,
        parse_lumps(bytes, idx).is_ok(),
        entry_fault(bytes, idx).is_some(),
    ensures
        parse_lumps(bytes, count) == Err::<ParseState, WadError>(entry_fault(bytes, idx).unwrap()),
{
    lemma_parse_stops(bytes, idx + 1, count);
}

/// Once the sorting has failed, it stays failed with the same fault.
pub proof fn lemma_parse_stops(bytes: Seq<u8>, n: int, count: int)
    requires
        0 <= n <= count,
        parse_lumps(bytes, n).is_err(),
    ensures
        parse_lumps(bytes, count) == parse_lumps(bytes, n),
    decreases count - n,
{
    if n < count {
        assert(parse_lumps(bytes, n + 1) == parse_lumps(bytes, n));
        lemma_parse_stops(bytes, n + 1, count);
    }
}

} // verus!
