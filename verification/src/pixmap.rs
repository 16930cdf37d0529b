//! Pixel maps as the container stores them: patches, flats, and the
//! textures composed of patches. Only their headers are read here.

use crate::buffer::{bytes_as_slice, bytes_len, bytes_new, bytes_of};
use crate::painter::RGB;
use crate::utils::{i16_at, i16_field, u16_at, u16_field};
use bytes::Bytes;
use vstd::prelude::*;

verus! {

/// Maps a colour index to a colour when pixels are drawn.
pub trait ColorMapper {
    /// What the mapper needs to hold before it can map.
    spec fn ready(&self) -> bool;

    /// The colour of an index.
    fn byte2rgb(&self, color: u8) -> RGB
        requires
            self.ready(),
    ;
}

/// How the bytes of a pixel map are laid out.
#[derive(Debug, Clone, Copy, PartialEq, Eq, Structural)]
pub enum PixMapKind {
    /// Columns of posts behind a header of width, height and offsets.
    Patch,
    /// Rows of 64 plain bytes.
    Flat,
    /// No bytes at all: drawn as a block of one colour.
    PlaceHolder,
}

/// A pixel map over the bytes of its lump.
pub struct PixMap {
    width: u16,
    height: u16,
    kind: PixMapKind,
    data: Bytes,
}

/// The contents of a pixel map.
pub ghost struct PixMapView {
    pub width: u16,
    pub height: u16,
    pub kind: PixMapKind,
    pub data: Seq<u8>,
}

impl View for PixMap {
    type V = PixMapView;

    closed spec fn view(&self) -> PixMapView {
        PixMapView {
            width: self.width,
            height: self.height,
            kind: self.kind,
            data: bytes_of(self.data),
        }
    }
}

impl Clone for PixMap {
    fn clone(&self) -> (r: Self)
        ensures
            r@ == self@,
    {
        PixMap { width: self.width, height: self.height, kind: self.kind, data: self.data.clone() }
    }
}

/// The pixel map of a patch lump: width and height are its first two fields.
pub open spec fn patch_of(data: Seq<u8>) -> PixMapView {
    PixMapView {
        width: u16_at(data, 0) as u16,
        height: u16_at(data, 2) as u16,
        kind: PixMapKind::Patch,
        data,
    }
}

/// The pixel map of a flat lump: 64 wide, one row to every 64 bytes.
pub open spec fn flat_of(data: Seq<u8>) -> PixMapView {
    PixMapView {
        width: 64,
        height: ((data.len() / 64) % 0x10000) as u16,
        kind: PixMapKind::Flat,
        data,
    }
}

/// A pixel map without bytes; sizes are kept to sixteen bits.
pub open spec fn placeholder_of(width: usize, height: usize) -> PixMapView {
    PixMapView {
        width: (width % 0x10000) as u16,
        height: (height % 0x10000) as u16,
        kind: PixMapKind::PlaceHolder,
        data: Seq::empty(),
    }
}

impl PixMapView {
    pub open spec fn is_empty(self) -> bool {
        self.width == 0 || self.height == 0
    }

    /// Whether the header of a patch can be read in full, and its
    /// offset negated in sixteen bits.
    pub open spec fn offsets_readable(self) -> bool {
        self.kind == PixMapKind::Patch ==> self.data.len() >= 8 && i16_at(self.data, 4) != -32768
            && i16_at(self.data, 6) != -32768
    }
}

impl PixMap {
    pub fn new_empty() -> (r: PixMap)
        ensures
            r@ == placeholder_of(0, 0),
    {
        Self::new_placeholder(0, 0)
    }

    pub fn new_placeholder(width: usize, height: usize) -> (r: PixMap)
        ensures
            r@ == placeholder_of(width, height),
    {
        PixMap {
            width: (width % 0x10000) as u16,
            height: (height % 0x10000) as u16,
            kind: PixMapKind::PlaceHolder,
            data: bytes_new(),
        }
    }

    pub fn from_flat(flat_bytes: &Bytes) -> (r: PixMap)
        ensures
            r@ == flat_of(bytes_of(*flat_bytes)),
    {
        let data = flat_bytes.clone();
        let len: usize = bytes_len(&data);
        let rows: usize = len >> 6;
        assert(rows == len / 64) by (bit_vector)
            requires
                rows == len >> 6,
        ;
        PixMap { width: 64, height: (rows % 0x10000) as u16, kind: PixMapKind::Flat, data }
    }

    pub fn from_patch(patch_bytes: &Bytes) -> (r: PixMap)
        requires
            bytes_of(*patch_bytes).len() >= 4,
        ensures
            r@ == patch_of(bytes_of(*patch_bytes)),
    {
        let data = patch_bytes.clone();
        let width: u16 = u16_field(bytes_as_slice(&data), 0);
        let height: u16 = u16_field(bytes_as_slice(&data), 2);
        PixMap { width, height, kind: PixMapKind::Patch, data }
    }

    pub fn is_empty(&self) -> (r: bool)
        ensures
            r == self@.is_empty(),
    {
        self.width == 0 || self.height == 0
    }

    pub fn width(&self) -> (r: u16)
        ensures
            r == self@.width,
    {
        self.width
    }

    pub fn height(&self) -> (r: u16)
        ensures
            r == self@.height,
    {
        self.height
    }

    /// The layout of the bytes.
    pub fn kind(&self) -> (r: PixMapKind)
        ensures
            r == self@.kind,
    {
        self.kind
    }

    /// The bytes of the lump.
    pub fn data(&self) -> (r: &[u8])
        ensures
            r@ == self@.data,
    {
        bytes_as_slice(&self.data)
    }

    /// Horizontal drawing offset: the negated left offset of a patch, 0 otherwise.
    pub fn x_offset(&self) -> (r: i32)
        requires
            self@.offsets_readable(),
        ensures
            r == if self@.kind == PixMapKind::Patch {
                -i16_at(self@.data, 4)
            } else {
                0
            },
    {
        match self.kind {
            PixMapKind::Patch => (-i16_field(bytes_as_slice(&self.data), 4)) as i32,
            _ => 0,
        }
    }

    /// Vertical drawing offset: the negated top offset of a patch, 0 otherwise.
    pub fn y_offset(&self) -> (r: i32)
        requires
            self@.offsets_readable(),
        ensures
            r == if self@.kind == PixMapKind::Patch {
                -i16_at(self@.data, 6)
            } else {
                0
            },
    {
        match self.kind {
            PixMapKind::Patch => (-i16_field(bytes_as_slice(&self.data), 6)) as i32,
            _ => 0,
        }
    }
}

/// A patch placed in a texture.
pub struct TexturePatch {
    pub pixmap: PixMap,
    pub x_orig: i16,
    pub y_orig: i16,
}

/// The contents of a patch placed in a texture.
pub ghost struct TexturePatchView {
    pub pixmap: PixMapView,
    pub x_orig: i16,
    pub y_orig: i16,
}

/// A texture: patches laid over one another in order.
pub struct Texture {
    width: u16,
    height: u16,
    patches: Vec<TexturePatch>,
}

/// The contents of a texture.
pub ghost struct TextureView {
    pub width: u16,
    pub height: u16,
    pub patches: Seq<TexturePatchView>,
}

impl View for Texture {
    type V = TextureView;

    closed spec fn view(&self) -> TextureView {
        TextureView {
            width: self.width,
            height: self.height,
            patches: Seq::new(
                self.patches@.len(),
                |i: int|
                    TexturePatchView {
                        pixmap: self.patches@[i].pixmap@,
                        x_orig: self.patches@[i].x_orig,
                        y_orig: self.patches@[i].y_orig,
                    },
            ),
        }
    }
}

impl Texture {
    /// A texture of the given size without patches; `patch_cnt` is only
    /// how many are expected.
    pub fn new(width: u16, height: u16, patch_cnt: usize) -> (r: Texture)
        ensures
            r@ == (TextureView { width, height, patches: Seq::empty() }),
    {
        let r = Texture { width, height, patches: Vec::with_capacity(patch_cnt) };
        assert(r@.patches =~= Seq::empty());
        r
    }

    /// Lays one more patch over the texture.
    pub fn add_patch(&mut self, patch_bytes: &Bytes, x_orig: i16, y_orig: i16)
        requires
            bytes_of(*patch_bytes).len() >= 4,
        ensures
            final(self)@ == (TextureView {
                patches: old(self)@.patches.push(
                    TexturePatchView { pixmap: patch_of(bytes_of(*patch_bytes)), x_orig, y_orig },
                ),
                ..old(self)@
            }),
    {
        let tex_patch = TexturePatch { pixmap: PixMap::from_patch(patch_bytes), x_orig, y_orig };
        self.patches.push(tex_patch);
        assert(self@.patches =~= old(self)@.patches.push(
            TexturePatchView { pixmap: patch_of(bytes_of(*patch_bytes)), x_orig, y_orig },
        ));
    }

    pub fn width(&self) -> (r: u16)
        ensures
            r == self@.width,
    {
        self.width
    }

    pub fn height(&self) -> (r: u16)
        ensures
            r == self@.height,
    {
        self.height
    }

    /// Number of patches laid so far.
    pub fn patch_count(&self) -> (r: usize)
        ensures
            r == self@.patches.len(),
    {
        self.patches.len()
    }

    /// The `idx`-th patch, in the order in which the patches were laid.
    pub fn patch(&self, idx: usize) -> (r: &TexturePatch)
        requires
            idx < self@.patches.len(),
        ensures
            r.pixmap@ == self@.patches[idx as int].pixmap,
            r.x_orig == self@.patches[idx as int].x_orig,
            r.y_orig == self@.patches[idx as int].y_orig,
    {
        &self.patches[idx]
    }
}

} // verus!
