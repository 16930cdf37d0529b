//! Lump names: how they are read from a directory entry and what kind of
//! lump a name announces.

use crate::error::WadError;
use crate::utils::{lemma_name_len, name_len};
use vstd::prelude::*;
use vstd::slice::slice_subrange;
use vstd::string::StringSliceAdditionalSpecFns;
use vstd::utf8::{
    encode_utf8, encode_utf8_decode_utf8, encode_utf8_valid_utf8, is_ascii_chars,
    is_ascii_chars_encode_utf8, valid_utf8,
};

verus! {

/// `core::str::from_utf8`: the text that the bytes spell, present exactly
/// when they are well-formed UTF-8, and then made of those very bytes.
#[verifier::external_body]
pub(crate) fn str_from_utf8(bytes: &[u8]) -> (r: Option<&str>)
    ensures
        r.is_some() == valid_utf8(bytes@),
        r.is_some() ==> r.unwrap().spec_bytes() == bytes@,
{
    core::str::from_utf8(bytes).ok()
}

/// Two byte strings are equal.
pub fn bytes_eq(a: &[u8], b: &[u8]) -> (r: bool)
    ensures
        r == (a@ == b@),
{
    if a.len() != b.len() {
        return false;
    }
    let mut i: usize = 0;
    while i < a.len()
        invariant
            i <= a@.len(),
            a@.len() == b@.len(),
            forall|k: int| 0 <= k < i ==> a@[k] == b@[k],
        decreases a@.len() - i,
    {
        if a[i] != b[i] {
            return false;
        }
        i += 1;
    }
    assert(a@ =~= b@);
    true
}

/// Two texts are equal, character for character.
pub fn str_eq(a: &str, b: &str) -> (r: bool)
    ensures
        r == (a@ == b@),
{
    proof {
        encode_utf8_decode_utf8(a@);
        encode_utf8_decode_utf8(b@);
    }
    bytes_eq(a.as_bytes(), b.as_bytes())
}

/// The text made of the given ASCII bytes.
pub open spec fn ascii_text(bytes: Seq<u8>) -> Seq<char> {
    Seq::new(bytes.len(), |i: int| bytes[i] as char)
}

/// A text whose bytes are all below 128 is the text of those bytes.
pub proof fn lemma_ascii_text(s: &str)
    requires
        forall|k: int| 0 <= k < s.spec_bytes().len() ==> s.spec_bytes()[k] < 128,
    ensures
        s@ == ascii_text(s.spec_bytes()),
{
    let bytes = s.spec_bytes();
    let text = ascii_text(bytes);
    assert(is_ascii_chars(text));
    is_ascii_chars_encode_utf8(text);
    assert(encode_utf8(text) =~= bytes);
    encode_utf8_decode_utf8(text);
    encode_utf8_decode_utf8(s@);
}

/// ASCII bytes are well-formed UTF-8.
pub proof fn lemma_ascii_valid(bytes: Seq<u8>)
    requires
        forall|k: int| 0 <= k < bytes.len() ==> bytes[k] < 128,
    ensures
        valid_utf8(bytes),
{
    let text = ascii_text(bytes);
    assert(is_ascii_chars(text));
    is_ascii_chars_encode_utf8(text);
    assert(encode_utf8(text) =~= bytes);
    encode_utf8_valid_utf8(text);
}

/// Whether a byte is one of `'0'..='9'`.
pub open spec fn digit(byte: u8) -> bool {
    48 <= byte <= 57
}

pub fn is_ascii_digit(byte: u8) -> (r: bool)
    ensures
        r == digit(byte),
{
    byte >= 48 && byte <= 57
}

/// `name_len` never passes the end of the name.
pub proof fn lemma_name_len_bounds(name: Seq<u8>)
    ensures
        0 <= name_len(name) <= name.len(),
        forall|k: int| 0 <= k < name_len(name) ==> name[k] != 0,
    decreases name.len(),
{
    if name.len() == 0 || name[0] == 0 {
    } else {
        lemma_name_len_bounds(name.drop_first());
        assert forall|k: int| 0 <= k < name_len(name) implies name[k] != 0 by {
            if k > 0 {
                assert(name[k] == name.drop_first()[k - 1]);
            }
        }
    }
}

/// Whether the part of a padded name before its first NUL is printable:
/// every byte from the space (0x20) up to the tilde (0x7E).
pub open spec fn printable_name(name: Seq<u8>) -> bool {
    forall|k: int| 0 <= k < name_len(name) ==> 32 <= #[trigger] name[k] < 127
}

/// The name that a directory entry holds: its bytes up to the first NUL.
pub open spec fn lump_name_of(name: Seq<u8>) -> Seq<char> {
    ascii_text(name.subrange(0, name_len(name)))
}

/// Reads the name of the directory entry at `idx` from its padded bytes.
/// A byte below the space or at or above DEL before the first NUL makes
/// the name invalid; what follows the first NUL is not looked at.
pub fn extract_lump_name(name_bytes: &[u8], idx: usize) -> (r: Result<&str, WadError>)
    ensures
        match r {
            Ok(name) => printable_name(name_bytes@) && name@ == lump_name_of(name_bytes@)
                && name.spec_bytes() == name_bytes@.subrange(0, name_len(name_bytes@)),
            Err(e) => !printable_name(name_bytes@) && e == (WadError::InvalidLumpName {
                index: idx,
            }),
        },
{
    let mut idx_end: usize = 0;
    while idx_end < name_bytes.len() && name_bytes[idx_end] != 0
        invariant
            idx_end <= name_bytes@.len(),
            forall|k: int| 0 <= k < idx_end ==> 32 <= #[trigger] name_bytes@[k] < 127,
        decreases name_bytes@.len() - idx_end,
    {
        let ch: u8 = name_bytes[idx_end];
        if ch < 32 || ch >= 127 {
            proof {
                lemma_first_nul(name_bytes@, idx_end + 1);
                assert(!(32 <= name_bytes@[idx_end as int] < 127));
            }
            return Err(WadError::InvalidLumpName { index: idx });
        }
        idx_end += 1;
    }
    proof {
        lemma_name_len(name_bytes@, idx_end as int);
    }
    let head = slice_subrange(name_bytes, 0, idx_end);
    proof {
        lemma_ascii_valid(head@);
    }
    match str_from_utf8(head) {
        Some(name) => {
            proof {
                lemma_ascii_text(name);
            }
            Ok(name)
        },
        None => Err(WadError::InvalidLumpName { index: idx }),
    }
}

/// A padded name whose bytes are all NUL or in the range from the space
/// to the tilde is printable, so its name is read.
pub proof fn lemma_printable_range(name: Seq<u8>)
    requires
        forall|k: int| 0 <= k < name.len() ==> name[k] == 0 || 0x20 <= #[trigger] name[k] <= 0x7E,
    ensures
        printable_name(name),
{
    lemma_name_len_bounds(name);
}

/// When no byte before `n` is NUL, the padded length is at least `n`.
pub proof fn lemma_first_nul(name: Seq<u8>, n: int)
    requires
        0 <= n <= name.len(),
        forall|k: int| 0 <= k < n ==> name[k] != 0,
    ensures
        name_len(name) >= n,
    decreases n,
{
    lemma_name_len_bounds(name);
    if n > 0 {
        assert(name[0] != 0);
        assert forall|k: int| 0 <= k < n - 1 implies name.drop_first()[k] != 0 by {
            assert(name.drop_first()[k] == name[k + 1]);
        }
        lemma_first_nul(name.drop_first(), n - 1);
    }
}

/// The level-marker grammar: `E<digit>M<digit>` or `MAP<digit><digit>`.
pub open spec fn map_name(b: Seq<u8>) -> bool {
    ||| (b.len() == 4 && b[0] == 69 && digit(b[1]) && b[2] == 77 && digit(b[3]))
    ||| (b.len() == 5 && b[0] == 77 && b[1] == 65 && b[2] == 80 && digit(b[3]) && digit(b[4]))
}

/// Whether a lump name marks the start of a level.
pub fn is_map_name(name: &str) -> (r: bool)
    ensures
        r == map_name(name.spec_bytes()),
{
    let b = name.as_bytes();
    if b.len() == 4 {
        b[0] == 69 && is_ascii_digit(b[1]) && b[2] == 77 && is_ascii_digit(b[3])
    } else if b.len() == 5 {
        b[0] == 77 && b[1] == 65 && b[2] == 80 && is_ascii_digit(b[3]) && is_ascii_digit(b[4])
    } else {
        false
    }
}

/// The bytes of `TEXTURE`.
pub open spec fn texture_prefix() -> Seq<u8> {
    seq![84u8, 69u8, 88u8, 84u8, 85u8, 82u8, 69u8]
}

/// The name pattern of a texture definition lump: `TEXTURE<digit>`.
pub open spec fn texture_name(b: Seq<u8>) -> bool {
    b.len() == 8 && b.subrange(0, 7) == texture_prefix() && digit(b[7])
}

/// Whether a lump name announces texture definitions.
pub fn is_texture_name(name: &str) -> (r: bool)
    ensures
        r == texture_name(name.spec_bytes()),
{
    let b = name.as_bytes();
    if b.len() != 8 {
        return false;
    }
    let prefix: [u8; 7] = [84, 69, 88, 84, 85, 82, 69];
    assert(prefix@ =~= texture_prefix());
    bytes_eq(slice_subrange(b, 0, 7), prefix.as_slice()) && is_ascii_digit(b[7])
}

/// The bytes of `STCFN`.
pub open spec fn stcfn_prefix() -> Seq<u8> {
    seq![83u8, 84u8, 67u8, 70u8, 78u8]
}

/// The bytes of `FONTA`.
pub open spec fn fonta_prefix() -> Seq<u8> {
    seq![70u8, 79u8, 78u8, 84u8, 65u8]
}

/// The name pattern of a font glyph lump: `STCFN` or `FONTA` and at least
/// two more bytes.
pub open spec fn font_name(b: Seq<u8>) -> bool {
    b.len() >= 7 && (b.subrange(0, 5) == stcfn_prefix() || b.subrange(0, 5) == fonta_prefix())
}

/// Whether the bytes start with `STCFN`.
pub fn has_stcfn_prefix(b: &[u8]) -> (r: bool)
    requires
        b@.len() >= 5,
    ensures
        r == (b@.subrange(0, 5) == stcfn_prefix()),
{
    let prefix: [u8; 5] = [83, 84, 67, 70, 78];
    assert(prefix@ =~= stcfn_prefix());
    bytes_eq(slice_subrange(b, 0, 5), prefix.as_slice())
}

/// Whether the bytes start with `FONTA`.
pub fn has_fonta_prefix(b: &[u8]) -> (r: bool)
    requires
        b@.len() >= 5,
    ensures
        r == (b@.subrange(0, 5) == fonta_prefix()),
{
    let prefix: [u8; 5] = [70, 79, 78, 84, 65];
    assert(prefix@ =~= fonta_prefix());
    bytes_eq(slice_subrange(b, 0, 5), prefix.as_slice())
}

/// Whether a lump name announces a font glyph.
pub fn is_font_name(name: &str) -> (r: bool)
    ensures
        r == font_name(name.spec_bytes()),
{
    let b = name.as_bytes();
    b.len() >= 7 && (has_stcfn_prefix(b) || has_fonta_prefix(b))
}

} // verus!
