//! The glyphs of the container's font and the grey level of each palette entry.

use crate::buffer::{bytes_as_slice, bytes_of};
use crate::names::{fonta_prefix, has_fonta_prefix, has_stcfn_prefix, stcfn_prefix};
use crate::painter::RGB;
use crate::pixmap::{patch_of, placeholder_of, PixMap, PixMapView};
use crate::utils::{all_digits, digits_fit, digits_value, parse_digits};
use bytes::Bytes;
use vstd::prelude::*;
use vstd::slice::slice_subrange;
use vstd::string::StringSliceAdditionalSpecFns;

verus! {

/// Number of glyph slots.
pub const GLYPH_COUNT: usize = 64;

/// Number of leading glyph slots that a complete font fills.
pub const REQUIRED_GLYPHS: usize = 58;

/// The code that stands for no glyph.
pub const NO_CODE: u32 = 9999;

/// The glyphs of a font and a grey level for each palette entry.
pub struct Font {
    font: Vec<PixMap>,
    grayscale: Vec<u8>,
}

/// The contents of a font.
pub ghost struct FontView {
    pub glyphs: Seq<PixMapView>,
    pub grayscale: Seq<u8>,
}

/// The greatest of three channel values.
pub open spec fn max3(r: u8, g: u8, b: u8) -> u8 {
    if r >= g && r >= b {
        r
    } else if g >= b {
        g
    } else {
        b
    }
}

/// The number behind the five-letter prefix of a glyph lump's name, or
/// `NO_CODE` where that is not a number.
pub open spec fn name_number(name: Seq<u8>) -> int {
    let tail = name.subrange(5, name.len() as int);
    if all_digits(tail) {
        digits_value(tail, tail.len() as int)
    } else {
        NO_CODE as int
    }
}

/// The character code that a glyph lump's name announces: `STCFN` names
/// give it directly, `FONTA` names count from 32.
pub open spec fn glyph_code(name: Seq<u8>) -> int {
    if name.subrange(0, 5) == stcfn_prefix() {
        name_number(name)
    } else if name.subrange(0, 5) == fonta_prefix() {
        name_number(name) + 32
    } else {
        NO_CODE as int
    }
}

/// Whether the number behind the prefix of a glyph lump's name can be
/// worked out in 32 bits: its digits as they are read, and the 32 that a
/// `FONTA` name adds.
pub open spec fn number_fits(name: Seq<u8>) -> bool {
    name.len() > 6 ==> {
        let tail = name.subrange(5, name.len() as int);
        &&& digits_fit(tail)
        &&& (name.subrange(0, 5) == fonta_prefix() && all_digits(tail)) ==> digits_value(
            tail,
            tail.len() as int,
        ) + 32 <= u32::MAX
    }
}

/// The slot of a character code: codes 33 to 95 fill slots 0 to 62, and
/// codes 121 and 124 share slot 63.
pub open spec fn code_slot(code: int) -> Option<int> {
    if 33 <= code <= 95 {
        Some(code - 33)
    } else if code == 121 || code == 124 {
        Some(63)
    } else {
        None
    }
}

/// The slot that a lump of the given name fills, if any; names of fewer
/// than seven bytes fill none.
pub open spec fn name_slot(name: Seq<u8>) -> Option<int> {
    if name.len() > 6 {
        code_slot(glyph_code(name))
    } else {
        None
    }
}

/// The slot of the glyph that draws a byte of text above the space:
/// lower-case letters use the upper-case glyphs, and a few signs share.
pub open spec fn char_slot(byte: u8) -> int {
    if 33 <= byte <= 95 {
        byte - 33
    } else if byte == 96 {
        6
    } else if 97 <= byte <= 122 {
        byte - 65
    } else if byte == 123 {
        27
    } else if byte == 124 {
        63
    } else if byte == 125 {
        29
    } else if byte == 126 {
        61
    } else {
        0
    }
}

/// A colour scaled by a grey level of 0 to 255.
pub open spec fn tinted(color: RGB, gray: u8) -> RGB {
    RGB {
        r: (color.r as int * gray as int / 255) as u8,
        g: (color.g as int * gray as int / 255) as u8,
        b: (color.b as int * gray as int / 255) as u8,
    }
}

impl FontView {
    /// No glyph, and each palette entry as grey as its index.
    pub open spec fn empty() -> FontView {
        FontView {
            glyphs: Seq::new(GLYPH_COUNT as nat, |i: int| placeholder_of(0, 0)),
            grayscale: Seq::new(256, |i: int| i as u8),
        }
    }

    pub open spec fn wf(self) -> bool {
        self.glyphs.len() == GLYPH_COUNT && self.grayscale.len() == 256
    }

    /// The font after a lump of the given name was offered as a glyph.
    pub open spec fn with_glyph(self, name: Seq<u8>, bytes: Seq<u8>) -> FontView {
        match name_slot(name) {
            Some(slot) => FontView { glyphs: self.glyphs.update(slot, patch_of(bytes)), ..self },
            None => self,
        }
    }

    /// The font after the grey levels were taken from a palette: each is
    /// the greatest channel of its entry.
    pub open spec fn with_grayscale(self, playpal: Seq<u8>) -> FontView {
        FontView {
            grayscale: Seq::new(
                256,
                |i: int| max3(playpal[3 * i], playpal[3 * i + 1], playpal[3 * i + 2]),
            ),
            ..self
        }
    }

    /// Every required glyph has pixels.
    pub open spec fn is_complete(self) -> bool {
        forall|i: int| 0 <= i < REQUIRED_GLYPHS ==> !(#[trigger] self.glyphs[i]).is_empty()
    }
}

impl View for Font {
    type V = FontView;

    closed spec fn view(&self) -> FontView {
        FontView {
            glyphs: Seq::new(self.font@.len(), |i: int| self.font@[i]@),
            grayscale: self.grayscale@,
        }
    }
}

/// The slot of the glyph that draws a byte of text above the space.
pub fn glyph_index(byte: u8) -> (idx: usize)
    ensures
        idx == char_slot(byte),
        idx < GLYPH_COUNT,
{
    if 33 <= byte && byte <= 95 {
        (byte - 33) as usize
    } else if byte == 96 {
        6
    } else if 97 <= byte && byte <= 122 {
        (byte - 65) as usize
    } else if byte == 123 {
        27
    } else if byte == 124 {
        63
    } else if byte == 125 {
        29
    } else if byte == 126 {
        61
    } else {
        0
    }
}

/// Scales a colour by a grey level.
pub fn font_color(color: RGB, gray: u8) -> (c: RGB)
    ensures
        c == tinted(color, gray),
{
    let level: u32 = gray as u32;
    assert(color.r as int * gray as int / 255 <= 255 && color.g as int * gray as int / 255 <= 255
        && color.b as int * gray as int / 255 <= 255) by (nonlinear_arith)
        requires
            0 <= color.r <= 255,
            0 <= color.g <= 255,
            0 <= color.b <= 255,
            0 <= gray <= 255,
    ;
    assert(color.r as int * gray as int <= 65025 && color.g as int * gray as int <= 65025
        && color.b as int * gray as int <= 65025) by (nonlinear_arith)
        requires
            0 <= color.r <= 255,
            0 <= color.g <= 255,
            0 <= color.b <= 255,
            0 <= gray <= 255,
    ;
    let r: u32 = (color.r as u32) * level / 255;
    let g: u32 = (color.g as u32) * level / 255;
    let b: u32 = (color.b as u32) * level / 255;
    RGB::from(r as u8, g as u8, b as u8)
}

impl Font {
    pub fn new() -> (r: Font)
        ensures
            r@ == FontView::empty(),
            r@.wf(),
    {
        let mut grayscale: Vec<u8> = Vec::with_capacity(256);
        let mut i: usize = 0;
        while i < 256
            invariant
                i <= 256,
                grayscale@.len() == i,
                forall|k: int| 0 <= k < i ==> grayscale@[k] == k as u8,
            decreases 256 - i,
        {
            grayscale.push(i as u8);
            i += 1;
        }
        let mut font: Vec<PixMap> = Vec::with_capacity(GLYPH_COUNT);
        let mut j: usize = 0;
        while j < GLYPH_COUNT
            invariant
                j <= GLYPH_COUNT,
                font@.len() == j,
                forall|k: int| 0 <= k < j ==> (#[trigger] font@[k])@ == placeholder_of(0, 0),
            decreases GLYPH_COUNT - j,
        {
            font.push(PixMap::new_empty());
            j += 1;
        }
        let r = Font { font, grayscale };
        assert(r@.glyphs =~= FontView::empty().glyphs);
        assert(r@.grayscale =~= FontView::empty().grayscale);
        r
    }

    /// Offers a lump as a glyph: it fills the slot that its name
    /// announces, and is ignored where the name announces none.
    pub fn add_font_lump(&mut self, name: &str, bytes: &Bytes)
        requires
            old(self)@.wf(),
            number_fits(name.spec_bytes()),
            name_slot(name.spec_bytes()).is_some() ==> bytes_of(*bytes).len() >= 4,
        ensures
            final(self)@ == old(self)@.with_glyph(name.spec_bytes(), bytes_of(*bytes)),
            final(self)@.wf(),
    {
        let b = name.as_bytes();
        if b.len() > 6 {
            let tail = slice_subrange(b, 5, b.len());
            let number: u32 = match parse_digits(tail) {
                Some(n) => n,
                None => NO_CODE,
            };
            let code: u32 = if has_stcfn_prefix(b) {
                number
            } else if has_fonta_prefix(b) {
                number + 32
            } else {
                NO_CODE
            };
            if 33 <= code && code <= 95 {
                self.font.set((code - 33) as usize, PixMap::from_patch(bytes));
                assert(self@.glyphs =~= old(self)@.glyphs.update(
                    code - 33,
                    patch_of(bytes_of(*bytes)),
                ));
            } else if code == 121 || code == 124 {
                self.font.set(63, PixMap::from_patch(bytes));
                assert(self@.glyphs =~= old(self)@.glyphs.update(63, patch_of(bytes_of(*bytes))));
            } else {
                assert(self@.glyphs =~= old(self)@.glyphs);
            }
        } else {
            assert(self@.glyphs =~= old(self)@.glyphs);
        }
    }

    /// Takes the grey level of each palette entry from the first palette
    /// of a palette lump.
    pub fn compute_grayscale(&mut self, playpal: &Bytes)
        requires
            old(self)@.wf(),
            bytes_of(*playpal).len() >= 768,
        ensures
            final(self)@ == old(self)@.with_grayscale(bytes_of(*playpal)),
            final(self)@.wf(),
    {
        let pal = bytes_as_slice(playpal);
        let mut i: usize = 0;
        while i < 256
            invariant
                i <= 256,
                pal@ == bytes_of(*playpal),
                pal@.len() >= 768,
                self.grayscale@.len() == 256,
                self.font == old(self).font,
                forall|k: int|
                    0 <= k < i ==> self.grayscale@[k] == max3(
                        pal@[3 * k],
                        pal@[3 * k + 1],
                        pal@[3 * k + 2],
                    ),
            decreases 256 - i,
        {
            let r: u8 = pal[i * 3];
            let g: u8 = pal[i * 3 + 1];
            let b: u8 = pal[i * 3 + 2];
            let level: u8 = if r >= g && r >= b {
                r
            } else if g >= b {
                g
            } else {
                b
            };
            self.grayscale.set(i, level);
            i += 1;
        }
        assert(self@.grayscale =~= old(self)@.with_grayscale(bytes_of(*playpal)).grayscale);
        assert(self@.glyphs =~= old(self)@.glyphs);
    }

    /// Whether every required glyph has pixels.
    pub fn is_complete(&self) -> (r: bool)
        requires
            self@.wf(),
        ensures
            r == self@.is_complete(),
    {
        let mut i: usize = 0;
        while i < REQUIRED_GLYPHS
            invariant
                i <= REQUIRED_GLYPHS,
                self@.wf(),
                forall|k: int| 0 <= k < i ==> !(#[trigger] self@.glyphs[k]).is_empty(),
            decreases REQUIRED_GLYPHS - i,
        {
            if self.font[i].is_empty() {
                assert(self@.glyphs[i as int].is_empty());
                return false;
            }
            i += 1;
        }
        true
    }

    /// The glyph of a slot.
    pub fn glyph(&self, idx: usize) -> (r: &PixMap)
        requires
            self@.wf(),
            idx < GLYPH_COUNT,
        ensures
            r@ == self@.glyphs[idx as int],
    {
        &self.font[idx]
    }

    /// The grey level of each palette entry.
    pub fn grayscale(&self) -> (r: &[u8])
        ensures
            r@ == self@.grayscale,
    {
        self.grayscale.as_slice()
    }
}

} // verus!
