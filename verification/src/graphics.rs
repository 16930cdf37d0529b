//! Patches, flats and texture definitions of a container, kept by the key
//! of their name.

use crate::buffer::{bytes_as_slice, bytes_len, bytes_new, bytes_of, bytes_slice};
use crate::error::WadError;
use crate::pixmap::{flat_of, patch_of, PixMap, Texture, TexturePatchView, TextureView};
use crate::utils::{
    hash_lump_name, i16_at, i16_field, lump_key, name_field, u16_at, u16_field, u32_at, u32_field,
};
use bytes::Bytes;
use std::collections::HashMap;
use vstd::prelude::*;
use vstd::string::StringSliceAdditionalSpecFns;

verus! {

broadcast use vstd::std_specs::hash::group_hash_axioms;

/// The graphic lumps of a container.
pub struct Graphics {
    patches: HashMap<u64, Bytes>,
    flats: HashMap<u64, Bytes>,
    pnames: Bytes,
    textures: HashMap<u64, Bytes>,
}

/// The contents of a graphics store: the bytes of each lump by its key.
pub ghost struct GraphicsView {
    pub patches: Map<u64, Seq<u8>>,
    pub flats: Map<u64, Seq<u8>>,
    pub pnames: Seq<u8>,
    pub textures: Map<u64, Seq<u8>>,
}

/// Offset of the `t`-th texture definition in a texture lump.
pub open spec fn texture_offset(bytes: Seq<u8>, t: int) -> int {
    u32_at(bytes, 4 + 4 * t)
}

/// Bytes of the `t`-th texture definition: a header of 22 and 10 for each patch.
pub open spec fn texture_len(bytes: Seq<u8>, t: int) -> int {
    22 + 10 * u16_at(bytes, texture_offset(bytes, t) + 20)
}

/// Whether the `t`-th texture definition reaches beyond its lump.
pub open spec fn texture_fault(bytes: Seq<u8>, t: int) -> bool {
    ||| bytes.len() <= texture_offset(bytes, t) + 28
    ||| bytes.len() < texture_offset(bytes, t) + texture_len(bytes, t)
}

/// The first texture definition from index `from` up to `count` that
/// reaches beyond its lump.
pub open spec fn first_texture_fault(bytes: Seq<u8>, from: int, count: int) -> Option<int>
    decreases count - from,
{
    if from >= count {
        None
    } else if texture_fault(bytes, from) {
        Some(from)
    } else {
        first_texture_fault(bytes, from + 1, count)
    }
}

/// Key of the `t`-th texture definition: the name in its first eight bytes.
pub open spec fn texture_key(bytes: Seq<u8>, t: int) -> u64 {
    lump_key(bytes.subrange(texture_offset(bytes, t), texture_offset(bytes, t) + 8)) as u64
}

/// The bytes of the `t`-th texture definition.
pub open spec fn texture_bytes(bytes: Seq<u8>, t: int) -> Seq<u8> {
    bytes.subrange(texture_offset(bytes, t), texture_offset(bytes, t) + texture_len(bytes, t))
}

/// The texture table after the first `n` definitions of a lump were
/// added in order; a later one of the same key replaces an earlier.
pub open spec fn with_textures(
    textures: Map<u64, Seq<u8>>,
    bytes: Seq<u8>,
    n: int,
) -> Map<u64, Seq<u8>>
    decreases n,
{
    if n <= 0 {
        textures
    } else {
        with_textures(textures, bytes, n - 1).insert(
            texture_key(bytes, n - 1),
            texture_bytes(bytes, n - 1),
        )
    }
}

impl GraphicsView {
    pub open spec fn empty() -> GraphicsView {
        GraphicsView {
            patches: Map::empty(),
            flats: Map::empty(),
            pnames: Seq::empty(),
            textures: Map::empty(),
        }
    }

    pub open spec fn with_patch(self, name: Seq<u8>, lump: Seq<u8>) -> GraphicsView {
        GraphicsView { patches: self.patches.insert(lump_key(name) as u64, lump), ..self }
    }

    pub open spec fn with_flat(self, name: Seq<u8>, lump: Seq<u8>) -> GraphicsView {
        GraphicsView { flats: self.flats.insert(lump_key(name) as u64, lump), ..self }
    }

    /// Whether a patch-name table is as long as its count announces.
    pub open spec fn pnames_valid(patches: Seq<u8>) -> bool {
        patches.len() > 4 && patches.len() >= 4 + 8 * u32_at(patches, 0)
    }

    /// The outcome of setting the patch-name table.
    pub open spec fn set_patch_names(self, patches: Seq<u8>) -> Result<GraphicsView, WadError> {
        if Self::pnames_valid(patches) {
            Ok(GraphicsView { pnames: patches, ..self })
        } else {
            Err(WadError::PnamesTooSmall)
        }
    }

    /// The store after the first `n` definitions of a texture lump were added.
    pub open spec fn with_first_textures(self, bytes: Seq<u8>, n: int) -> GraphicsView {
        GraphicsView { textures: with_textures(self.textures, bytes, n), ..self }
    }

    /// The outcome of adding the definitions of a texture lump.
    pub open spec fn add_textures(self, bytes: Seq<u8>) -> Result<GraphicsView, WadError> {
        let count = u32_at(bytes, 0);
        if bytes.len() <= 8 || bytes.len() <= 4 + 4 * count {
            Err(WadError::TexturesTooSmall { len: bytes.len() as usize })
        } else {
            match first_texture_fault(bytes, 0, count) {
                Some(t) => Err(
                    WadError::TextureOutOfBounds {
                        entry: t as usize,
                        len: bytes.len() as usize,
                        offset: texture_offset(bytes, t) as usize,
                    },
                ),
                None => Ok(self.with_first_textures(bytes, count)),
            }
        }
    }
}

impl GraphicsView {
    /// Number of patches that a texture definition lists.
    pub open spec fn patch_count(tex: Seq<u8>) -> int {
        u16_at(tex, 20)
    }

    /// Key of the `i`-th patch of a texture definition: the definition
    /// gives an index into the patch-name table, the table the name.
    pub open spec fn patch_key(self, tex: Seq<u8>, i: int) -> u64 {
        let at = 4 + 8 * u16_at(tex, 22 + 10 * i + 4);
        lump_key(self.pnames.subrange(at, at + 8)) as u64
    }

    /// Whether the `i`-th patch of a texture definition can be found:
    /// its name is in the patch-name table and a patch is kept under it.
    pub open spec fn patch_resolvable(self, tex: Seq<u8>, i: int) -> bool {
        &&& 4 + 8 * u16_at(tex, 22 + 10 * i + 4) + 8 <= self.pnames.len()
        &&& self.patches.contains_key(self.patch_key(tex, i))
        &&& self.patches[self.patch_key(tex, i)].len() >= 4
    }

    /// Whether the texture kept under a key, if there is one, can be
    /// composed: its definition is whole and each of its patches can be found.
    pub open spec fn texture_resolvable(self, key: u64) -> bool {
        self.textures.contains_key(key) ==> {
            let tex = self.textures[key];
            &&& tex.len() >= 22 + 10 * Self::patch_count(tex)
            &&& forall|i: int|
                0 <= i < Self::patch_count(tex) ==> #[trigger] self.patch_resolvable(tex, i)
        }
    }

    /// The `i`-th patch of a texture definition, placed.
    pub open spec fn placed_patch(self, tex: Seq<u8>, i: int) -> TexturePatchView {
        TexturePatchView {
            pixmap: patch_of(self.patches[self.patch_key(tex, i)]),
            x_orig: i16_at(tex, 22 + 10 * i) as i16,
            y_orig: i16_at(tex, 22 + 10 * i + 2) as i16,
        }
    }

    /// The texture that a definition composes.
    pub open spec fn texture_of(self, tex: Seq<u8>) -> TextureView {
        TextureView {
            width: u16_at(tex, 12) as u16,
            height: u16_at(tex, 14) as u16,
            patches: Seq::new(Self::patch_count(tex) as nat, |i: int| self.placed_patch(tex, i)),
        }
    }
}

impl View for Graphics {
    type V = GraphicsView;

    closed spec fn view(&self) -> GraphicsView {
        GraphicsView {
            patches: self.patches@.map_values(|b: Bytes| bytes_of(b)),
            flats: self.flats@.map_values(|b: Bytes| bytes_of(b)),
            pnames: bytes_of(self.pnames),
            textures: self.textures@.map_values(|b: Bytes| bytes_of(b)),
        }
    }
}

impl Graphics {
    pub fn new() -> (r: Graphics)
        ensures
            r@ == GraphicsView::empty(),
    {
        let r = Graphics {
            patches: HashMap::new(),
            flats: HashMap::new(),
            pnames: bytes_new(),
            textures: HashMap::new(),
        };
        assert(r@.patches =~= Map::empty());
        assert(r@.flats =~= Map::empty());
        assert(r@.textures =~= Map::empty());
        r
    }

    /// Keeps a patch lump under the key of its name.
    pub fn add_patch(&mut self, name: &str, lump: &Bytes)
        ensures
            final(self)@ == old(self)@.with_patch(name.spec_bytes(), bytes_of(*lump)),
    {
        let key: u64 = hash_lump_name(name.as_bytes());
        self.patches.insert(key, lump.clone());
        assert(self@.patches =~= old(self)@.patches.insert(key, bytes_of(*lump)));
    }

    /// Keeps a flat lump under the key of its name.
    pub fn add_flat(&mut self, name: &str, lump: &Bytes)
        ensures
            final(self)@ == old(self)@.with_flat(name.spec_bytes(), bytes_of(*lump)),
    {
        let key: u64 = hash_lump_name(name.as_bytes());
        self.flats.insert(key, lump.clone());
        assert(self@.flats =~= old(self)@.flats.insert(key, bytes_of(*lump)));
    }

    /// Sets the patch-name table, which must be as long as its count announces.
    pub fn set_patch_names(&mut self, patches: &Bytes) -> (r: Result<(), WadError>)
        ensures
            match r {
                Ok(()) => old(self)@.set_patch_names(bytes_of(*patches)) == Ok::<
                    GraphicsView,
                    WadError,
                >(final(self)@),
                Err(e) => old(self)@.set_patch_names(bytes_of(*patches)) == Err::<
                    GraphicsView,
                    WadError,
                >(e) && final(self)@ == old(self)@,
            },
    {
        let len: usize = bytes_len(patches);
        if len <= 4 {
            return Err(WadError::PnamesTooSmall);
        }
        let cnt: u64 = u32_field(bytes_as_slice(patches), 0) as u64;
        if (len as u64) < 4 + cnt * 8 {
            return Err(WadError::PnamesTooSmall);
        }
        self.pnames = patches.clone();
        Ok(())
    }

    /// Adds every definition of a texture lump under the key of its name.
    /// The first definition that reaches beyond the lump stops the work
    /// with an error; what was added before it stays.
    pub fn add_textures(&mut self, bytes: &Bytes) -> (r: Result<(), WadError>)
        ensures
            match r {
                Ok(()) => old(self)@.add_textures(bytes_of(*bytes)) == Ok::<
                    GraphicsView,
                    WadError,
                >(final(self)@),
                Err(e) => old(self)@.add_textures(bytes_of(*bytes)) == Err::<
                    GraphicsView,
                    WadError,
                >(e),
            },
            match r {
                Err(WadError::TextureOutOfBounds { entry, len, offset }) => final(self)@
                    == old(self)@.with_first_textures(bytes_of(*bytes), entry as int),
                Err(_) => final(self)@ == old(self)@,
                Ok(()) => true,
            },
    {
        let len: usize = bytes_len(bytes);
        if len <= 8 {
            return Err(WadError::TexturesTooSmall { len });
        }
        let raw = bytes_as_slice(bytes);
        let cnt: usize = u32_field(raw, 0) as usize;
        if (len as u64) <= 4 + 4 * (cnt as u64) {
            return Err(WadError::TexturesTooSmall { len });
        }
        let mut t: usize = 0;
        while t < cnt
            invariant
                t <= cnt,
                cnt == u32_at(raw@, 0),
                raw@ == bytes_of(*bytes),
                len == raw@.len(),
                len > 4 + 4 * cnt,
                first_texture_fault(raw@, 0, cnt as int) == first_texture_fault(
                    raw@,
                    t as int,
                    cnt as int,
                ),
                self@.textures == with_textures(old(self)@.textures, raw@, t as int),
                self@.patches == old(self)@.patches,
                self@.flats == old(self)@.flats,
                self@.pnames == old(self)@.pnames,
            decreases cnt - t,
        {
            let offs: usize = u32_field(raw, 4 + 4 * t) as usize;
            if (len as u64) <= (offs as u64) + 28 {
                return Err(WadError::TextureOutOfBounds { entry: t, len, offset: offs });
            }
            let key: u64 = name_field(raw, offs);
            let patch_count: usize = u16_field(raw, offs + 20) as usize;
            let tex_len: usize = 22 + 10 * patch_count;
            if (len as u64) < (offs as u64) + (tex_len as u64) {
                return Err(WadError::TextureOutOfBounds { entry: t, len, offset: offs });
            }
            let tex_bytes = bytes_slice(bytes, offs, offs + tex_len);
            let ghost before = self@.textures;
            self.textures.insert(key, tex_bytes);
            assert(self@.textures =~= before.insert(key, bytes_of(tex_bytes)));
            t += 1;
        }
        Ok(())
    }

    /// The patch kept under a key.
    pub fn get_patch(&self, key: u64) -> (r: Option<PixMap>)
        requires
            self@.patches.contains_key(key) ==> self@.patches[key].len() >= 4,
        ensures
            match r {
                Some(p) => self@.patches.contains_key(key) && p@ == patch_of(self@.patches[key]),
                None => !self@.patches.contains_key(key),
            },
    {
        match self.patches.get(&key) {
            Some(bytes) => Some(PixMap::from_patch(bytes)),
            None => None,
        }
    }

    /// The flat kept under a key.
    pub fn get_flat(&self, key: u64) -> (r: Option<PixMap>)
        ensures
            match r {
                Some(p) => self@.flats.contains_key(key) && p@ == flat_of(self@.flats[key]),
                None => !self@.flats.contains_key(key),
            },
    {
        match self.flats.get(&key) {
            Some(bytes) => Some(PixMap::from_flat(bytes)),
            None => None,
        }
    }

    /// Whether the texture kept under a key, if there is one, can be composed.
    pub fn texture_is_resolvable(&self, key: u64) -> (r: bool)
        ensures
            r == self@.texture_resolvable(key),
    {
        let tex_bytes: &[u8] = match self.textures.get(&key) {
            Some(bytes) => bytes_as_slice(bytes),
            None => {
                return true;
            },
        };
        let len: usize = tex_bytes.len();
        if len < 22 {
            return false;
        }
        let patch_cnt: usize = u16_field(tex_bytes, 20) as usize;
        if (len as u64) < 22 + 10 * (patch_cnt as u64) {
            return false;
        }
        let pnames = bytes_as_slice(&self.pnames);
        let names_len: usize = pnames.len();
        let mut idx: usize = 0;
        while idx < patch_cnt
            invariant
                idx <= patch_cnt <= 0xffff,
                self@.textures.contains_key(key),
                tex_bytes@ == self@.textures[key],
                pnames@ == self@.pnames,
                names_len == pnames@.len(),
                patch_cnt == GraphicsView::patch_count(tex_bytes@),
                tex_bytes@.len() >= 22 + 10 * patch_cnt,
                forall|k: int| 0 <= k < idx ==> #[trigger] self@.patch_resolvable(tex_bytes@, k),
            decreases patch_cnt - idx,
        {
            let patch_idx: usize = u16_field(tex_bytes, 22 + 10 * idx + 4) as usize;
            if (names_len as u64) < 4 + 8 * (patch_idx as u64) + 8 {
                assert(!self@.patch_resolvable(tex_bytes@, idx as int));
                return false;
            }
            let patch_key: u64 = name_field(pnames, patch_idx * 8 + 4);
            match self.patches.get(&patch_key) {
                Some(patch_bytes) => {
                    if bytes_len(patch_bytes) < 4 {
                        assert(!self@.patch_resolvable(tex_bytes@, idx as int));
                        return false;
                    }
                },
                None => {
                    assert(!self@.patch_resolvable(tex_bytes@, idx as int));
                    return false;
                },
            }
            idx += 1;
        }
        true
    }

    /// The texture kept under a key, composed of its patches in the
    /// order of its definition.
    pub fn get_texture(&self, key: u64) -> (r: Option<Texture>)
        requires
            self@.texture_resolvable(key),
        ensures
            match r {
                Some(t) => self@.textures.contains_key(key) && t@ == self@.texture_of(
                    self@.textures[key],
                ),
                None => !self@.textures.contains_key(key),
            },
    {
        let tex_bytes: &[u8] = match self.textures.get(&key) {
            Some(bytes) => bytes_as_slice(bytes),
            None => {
                return None;
            },
        };
        let width: u16 = u16_field(tex_bytes, 12);
        let height: u16 = u16_field(tex_bytes, 14);
        let patch_cnt: usize = u16_field(tex_bytes, 20) as usize;
        let pnames = bytes_as_slice(&self.pnames);
        let mut texture = Texture::new(width, height, patch_cnt);
        let mut idx: usize = 0;
        while idx < patch_cnt
            invariant
                idx <= patch_cnt <= 0xffff,
                self@.textures.contains_key(key),
                tex_bytes@ == self@.textures[key],
                pnames@ == self@.pnames,
                patch_cnt == GraphicsView::patch_count(tex_bytes@),
                self@.texture_resolvable(key),
                texture@.width == width,
                texture@.height == height,
                texture@.patches.len() == idx,
                forall|k: int|
                    0 <= k < idx ==> texture@.patches[k] == self@.placed_patch(tex_bytes@, k),
            decreases patch_cnt - idx,
        {
            assert(self@.patch_resolvable(tex_bytes@, idx as int));
            let pofs: usize = 22 + 10 * idx;
            let x_orig: i16 = i16_field(tex_bytes, pofs);
            let y_orig: i16 = i16_field(tex_bytes, pofs + 2);
            let patch_idx: usize = u16_field(tex_bytes, pofs + 4) as usize;
            let patch_key: u64 = name_field(pnames, patch_idx * 8 + 4);
            match self.patches.get(&patch_key) {
                Some(patch_bytes) => {
                    texture.add_patch(patch_bytes, x_orig, y_orig);
                },
                None => {},
            }
            idx += 1;
        }
        assert(texture@.patches =~= self@.texture_of(tex_bytes@).patches);
        Some(texture)
    }
}

} // verus!
