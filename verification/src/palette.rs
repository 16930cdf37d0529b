//! Palettes and colour maps: from a pixel byte to a colour.

use crate::buffer::{bytes_as_slice, bytes_len, bytes_new, bytes_of, bytes_slice};
use crate::painter::RGB;
use crate::pixmap::ColorMapper;
use bytes::Bytes;
use vstd::prelude::*;

verus! {

/// Bytes of one palette: 256 colours of three channels.
pub const PALETTE_SIZE: usize = 768;

/// Bytes of one colour map: 256 palette indices.
pub const COLORMAP_SIZE: usize = 256;

/// A selection that the palette data does not hold.
#[derive(Debug, Clone, Copy, PartialEq, Eq, Structural)]
pub enum PaletteError {
    InvalidPalette { index: usize, count: usize },
    InvalidColormap { index: usize, count: usize },
}

/// The palettes and colour maps of a container and which of them are in use.
pub struct Palette {
    colormaps: Bytes,
    palletes: Bytes,
    cmap_cnt: usize,
    cmap_selection: usize,
    pal_cnt: usize,
    pal_selection: usize,
}

/// The contents of a palette store. The selections are byte offsets.
pub ghost struct PaletteView {
    pub colormaps: Seq<u8>,
    pub palletes: Seq<u8>,
    pub cmap_cnt: usize,
    pub cmap_selection: usize,
    pub pal_cnt: usize,
    pub pal_selection: usize,
}

impl PaletteView {
    pub open spec fn empty() -> PaletteView {
        PaletteView {
            colormaps: Seq::empty(),
            palletes: Seq::empty(),
            cmap_cnt: 0,
            cmap_selection: 0,
            pal_cnt: 0,
            pal_selection: 0,
        }
    }

    /// The store after a palette lump was set: the first palette is selected.
    pub open spec fn with_palettes(self, bytes: Seq<u8>) -> PaletteView {
        PaletteView {
            palletes: bytes,
            pal_cnt: (bytes.len() / PALETTE_SIZE as nat) as usize,
            pal_selection: 0,
            ..self
        }
    }

    /// The store after a colour map lump was set: the first map is selected.
    pub open spec fn with_colormaps(self, bytes: Seq<u8>) -> PaletteView {
        PaletteView {
            colormaps: bytes,
            cmap_cnt: (bytes.len() / COLORMAP_SIZE as nat) as usize,
            cmap_selection: 0,
            ..self
        }
    }

    pub open spec fn is_initialized(self) -> bool {
        self.pal_cnt > 0 && self.cmap_cnt > 0
    }

    /// The counts are those of the data, and the selected palette and
    /// colour map lie within it.
    pub open spec fn wf(self) -> bool {
        &&& self.pal_cnt == self.palletes.len() / PALETTE_SIZE as nat
        &&& self.cmap_cnt == self.colormaps.len() / COLORMAP_SIZE as nat
        &&& self.pal_cnt > 0 ==> self.pal_selection + PALETTE_SIZE <= self.palletes.len()
        &&& self.cmap_cnt > 0 ==> self.cmap_selection + COLORMAP_SIZE <= self.colormaps.len()
    }

    /// The colour of a pixel byte: grey while data is missing, else the
    /// entry of the selected palette that the selected colour map names.
    pub open spec fn color_of(self, color: u8) -> RGB {
        if self.cmap_cnt == 0 || self.pal_cnt == 0 {
            RGB { r: color, g: color, b: color }
        } else {
            let entry = 3 * self.colormaps[self.cmap_selection + color];
            RGB {
                r: self.palletes[self.pal_selection + entry],
                g: self.palletes[self.pal_selection + entry + 1],
                b: self.palletes[self.pal_selection + entry + 2],
            }
        }
    }
}

impl View for Palette {
    type V = PaletteView;

    closed spec fn view(&self) -> PaletteView {
        PaletteView {
            colormaps: bytes_of(self.colormaps),
            palletes: bytes_of(self.palletes),
            cmap_cnt: self.cmap_cnt,
            cmap_selection: self.cmap_selection,
            pal_cnt: self.pal_cnt,
            pal_selection: self.pal_selection,
        }
    }
}

impl Palette {
    pub fn new() -> (r: Palette)
        ensures
            r@ == PaletteView::empty(),
            r@.wf(),
    {
        Palette {
            colormaps: bytes_new(),
            palletes: bytes_new(),
            cmap_cnt: 0,
            cmap_selection: 0,
            pal_cnt: 0,
            pal_selection: 0,
        }
    }

    pub fn init_palettes(&mut self, bytes: &Bytes)
        ensures
            final(self)@ == old(self)@.with_palettes(bytes_of(*bytes)),
            old(self)@.wf() ==> final(self)@.wf(),
    {
        self.pal_cnt = bytes_len(bytes) / PALETTE_SIZE;
        self.palletes = bytes.clone();
        self.pal_selection = 0;
    }

    pub fn init_colormaps(&mut self, bytes: &Bytes)
        ensures
            final(self)@ == old(self)@.with_colormaps(bytes_of(*bytes)),
            old(self)@.wf() ==> final(self)@.wf(),
    {
        self.cmap_cnt = bytes_len(bytes) / COLORMAP_SIZE;
        self.colormaps = bytes.clone();
        self.cmap_selection = 0;
    }

    pub fn is_initialized(&self) -> (r: bool)
        ensures
            r == self@.is_initialized(),
    {
        self.pal_cnt > 0 && self.cmap_cnt > 0
    }

    /// The first palette, or nothing when there is none.
    pub fn get_main_palette(&self) -> (r: Bytes)
        ensures
            bytes_of(r) == if self@.palletes.len() >= PALETTE_SIZE {
                self@.palletes.subrange(0, PALETTE_SIZE as int)
            } else {
                Seq::empty()
            },
    {
        if bytes_len(&self.palletes) >= PALETTE_SIZE {
            bytes_slice(&self.palletes, 0, PALETTE_SIZE)
        } else {
            bytes_new()
        }
    }

    /// Selects the palette of the given index.
    pub fn select_palette(&mut self, pal: usize) -> (r: Result<(), PaletteError>)
        requires
            old(self)@.wf(),
        ensures
            final(self)@.wf(),
            pal < old(self)@.pal_cnt ==> r.is_ok() && final(self)@ == (PaletteView {
                pal_selection: (pal * PALETTE_SIZE) as usize,
                ..old(self)@
            }),
            pal >= old(self)@.pal_cnt ==> final(self)@ == old(self)@ && r == Err::<(), PaletteError>(
                PaletteError::InvalidPalette { index: pal, count: old(self)@.pal_cnt },
            ),
    {
        if pal >= self.pal_cnt {
            Err(PaletteError::InvalidPalette { index: pal, count: self.pal_cnt })
        } else {
            let len: usize = bytes_len(&self.palletes);
            assert(pal * 768 + 768 <= len) by (nonlinear_arith)
                requires
                    pal < len / 768,
            ;
            self.pal_selection = pal * PALETTE_SIZE;
            Ok(())
        }
    }

    /// Selects the colour map of the given index.
    pub fn select_colormap(&mut self, cmap: usize) -> (r: Result<(), PaletteError>)
        requires
            old(self)@.wf(),
        ensures
            final(self)@.wf(),
            cmap < old(self)@.cmap_cnt ==> r.is_ok() && final(self)@ == (PaletteView {
                cmap_selection: (cmap * COLORMAP_SIZE) as usize,
                ..old(self)@
            }),
            cmap >= old(self)@.cmap_cnt ==> final(self)@ == old(self)@ && r == Err::<
                (),
                PaletteError,
            >(PaletteError::InvalidColormap { index: cmap, count: old(self)@.cmap_cnt }),
    {
        if cmap >= self.cmap_cnt {
            Err(PaletteError::InvalidColormap { index: cmap, count: self.cmap_cnt })
        } else {
            let len: usize = bytes_len(&self.colormaps);
            assert(cmap * 256 + 256 <= len) by (nonlinear_arith)
                requires
                    cmap < len / 256,
            ;
            self.cmap_selection = cmap * COLORMAP_SIZE;
            Ok(())
        }
    }
}

impl ColorMapper for Palette {
    open spec fn ready(&self) -> bool {
        self@.wf()
    }

    fn byte2rgb(&self, color: u8) -> (c: RGB)
        ensures
            c == self@.color_of(color),
    {
        if self.cmap_cnt == 0 || self.pal_cnt == 0 {
            RGB::from(color, color, color)
        } else {
            let colormaps = bytes_as_slice(&self.colormaps);
            let palletes = bytes_as_slice(&self.palletes);
            let cmap_len: usize = colormaps.len();
            let pal_len: usize = palletes.len();
            assert(self.cmap_selection + 256 <= cmap_len && self.pal_selection + 768 <= pal_len);
            let cmap_idx: usize = self.cmap_selection + (color as usize);
            let pal_entry: usize = 3 * (colormaps[cmap_idx] as usize);
            let pal_idx: usize = self.pal_selection + pal_entry;
            let r: u8 = palletes[pal_idx];
            let g: u8 = palletes[pal_idx + 1];
            let b: u8 = palletes[pal_idx + 2];
            RGB::from(r, g, b)
        }
    }
}

} // verus!
