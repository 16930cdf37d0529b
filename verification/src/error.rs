//! Why a container was refused.

use vstd::prelude::*;

verus! {

/// A structural fault found while loading a container. Each aborts the
/// whole load.
#[derive(Debug, Clone, Copy, PartialEq, Eq, Structural)]
pub enum WadError {
    /// The file is not longer than sixteen bytes.
    TooSmall,
    /// The four magic bytes are not well-formed text.
    InvalidHeader,
    /// The magic names another kind of container than the expected one.
    InvalidKind,
    /// The directory entry at `index` lies beyond the end of the file.
    DirectoryOutOfBounds { index: usize },
    /// The name of the directory entry at `index` holds an unprintable byte.
    InvalidLumpName { index: usize },
    /// The lump of the directory entry at `index` ends beyond the file.
    LumpTooBig { index: usize },
    /// A level lacks one of its lumps; `index` is the directory entry
    /// at which the level was found incomplete.
    IncompleteMap { index: usize },
    /// The patch-name table is shorter than its count announces.
    PnamesTooSmall,
    /// A texture lump of `len` bytes is too short for its offset table.
    TexturesTooSmall { len: usize },
    /// Texture `entry` of a texture lump of `len` bytes, at `offset`,
    /// reaches beyond the lump.
    TextureOutOfBounds { entry: usize, len: usize, offset: usize },
    /// No palette or no colour map was found.
    PaletteMissing,
    /// No complete level was found.
    MapsMissing,
    /// A glyph of the font is missing.
    FontsMissing,
}

} // verus!
