//! Little-endian decoding, record slicing and lump-name keys.

use vstd::prelude::*;
use vstd::slice::slice_subrange;
use vstd::string::StringSliceAdditionalSpecFns;

verus! {

/// The unsigned 16-bit value stored little-endian at offset `off`.
pub open spec fn u16_at(s: Seq<u8>, off: int) -> int {
    s[off] as int + 256 * (s[off + 1] as int)
}

/// The signed (two's complement) 16-bit value stored little-endian at offset `off`.
pub open spec fn i16_at(s: Seq<u8>, off: int) -> int {
    if u16_at(s, off) >= 32768 {
        u16_at(s, off) - 65536
    } else {
        u16_at(s, off)
    }
}

/// The unsigned 32-bit value stored little-endian at offset `off`.
pub open spec fn u32_at(s: Seq<u8>, off: int) -> int {
    s[off] as int + 256 * (s[off + 1] as int) + 65536 * (s[off + 2] as int) + 16777216 * (s[off
        + 3] as int)
}

/// The `idx`-th record of `size` bytes in a lump.
pub open spec fn record(lump: Seq<u8>, idx: int, size: int) -> Seq<u8> {
    lump.subrange(idx * size, idx * size + size)
}

/// Whether a lump holds a whole record of `size` bytes at index `idx`.
pub open spec fn has_record(lump: Seq<u8>, idx: int, size: int) -> bool {
    0 <= idx && idx * size + size <= lump.len()
}

/// Reads a little-endian `u16` from the start of `buf`.
pub fn buf_to_u16(buf: &[u8]) -> (r: u16)
    requires
        buf@.len() >= 2,
    ensures
        r as int == u16_at(buf@, 0),
{
    let lo: u16 = buf[0] as u16;
    let hi: u16 = buf[1] as u16;
    assert((lo | (hi << 8)) == lo + 256 * hi) by (bit_vector)
        requires
            lo < 256,
            hi < 256,
    ;
    lo | (hi << 8)
}

/// Reads a little-endian two's complement `i16` from the start of `buf`.
pub fn buf_to_i16(buf: &[u8]) -> (r: i16)
    requires
        buf@.len() >= 2,
    ensures
        r as int == i16_at(buf@, 0),
{
    let u: u16 = buf_to_u16(buf);
    if u >= 32768 {
        ((u as i32) - 65536) as i16
    } else {
        u as i16
    }
}

/// Reads a little-endian `u32` from the start of `buf`.
pub fn buf_to_u32(buf: &[u8]) -> (r: u32)
    requires
        buf@.len() >= 4,
    ensures
        r as int == u32_at(buf@, 0),
{
    let b0: u32 = buf[0] as u32;
    let b1: u32 = buf[1] as u32;
    let b2: u32 = buf[2] as u32;
    let b3: u32 = buf[3] as u32;
    assert((b0 | (b1 << 8) | (b2 << 16) | (b3 << 24)) == b0 + 256 * b1 + 65536 * b2 + 16777216
        * b3) by (bit_vector)
        requires
            b0 < 256,
            b1 < 256,
            b2 < 256,
            b3 < 256,
    ;
    b0 | (b1 << 8) | (b2 << 16) | (b3 << 24)
}

/// Decodes consecutive little-endian `i16` values; a trailing odd byte is ignored.
pub fn buf_to_i16_vect(buf: &[u8]) -> (vct: Vec<i16>)
    ensures
        vct@.len() == buf@.len() / 2,
        forall|i: int|
            0 <= i < vct@.len() ==> #[trigger] vct@[i] as int == i16_at(buf@, 2 * i),
{
    let len: usize = buf.len();
    let cnt: usize = len >> 1;
    assert(cnt == len / 2) by (bit_vector)
        requires
            cnt == len >> 1,
    ;
    let mut vct: Vec<i16> = Vec::with_capacity(cnt);
    let mut i: usize = 0;
    while i < cnt
        invariant
            i <= cnt,
            cnt == buf@.len() / 2,
            buf@.len() <= usize::MAX,
            vct@.len() == i,
            forall|k: int|
                0 <= k < i ==> #[trigger] vct@[k] as int == i16_at(buf@, 2 * k),
        decreases cnt - i,
    {
        let item = slice_subrange(buf, i * 2, i * 2 + 2);
        vct.push(buf_to_i16(item));
        i += 1;
    }
    vct
}

/// The `idx`-th record of `item_size` bytes in `buf`.
pub fn checked_slice(buf: &[u8], idx: usize, item_size: usize) -> (r: &[u8])
    requires
        has_record(buf@, idx as int, item_size as int),
    ensures
        r@ == record(buf@, idx as int, item_size as int),
{
    let len: usize = buf.len();
    assert(idx * item_size <= len) by (nonlinear_arith)
        requires
            idx * item_size + item_size <= len,
            0 <= item_size,
    ;
    let start: usize = idx * item_size;
    let end: usize = start + item_size;
    slice_subrange(buf, start, end)
}

/// Lower-case ASCII letters count as their upper-case form in a lump key.
pub open spec fn key_byte(b: u8) -> int {
    if 97 <= b <= 122 {
        b - 32
    } else {
        b as int
    }
}

/// Number of bytes of a padded name before its first NUL.
pub open spec fn name_len(name: Seq<u8>) -> int
    decreases name.len(),
{
    if name.len() == 0 || name[0] == 0 {
        0
    } else {
        1 + name_len(name.drop_first())
    }
}

/// The key of the first `n` bytes: each byte shifts the key left by eight
/// bits, so only the last eight bytes survive in 64 bits.
pub open spec fn key_of_prefix(name: Seq<u8>, n: int) -> int
    decreases n,
{
    if n <= 0 {
        0
    } else {
        (key_of_prefix(name, n - 1) * 256 + key_byte(name[n - 1])) % 0x1_0000_0000_0000_0000
    }
}

/// The 64-bit key under which a lump name is stored: its bytes up to the
/// first NUL, upper-cased, packed big-endian.
pub open spec fn lump_key(name: Seq<u8>) -> int {
    key_of_prefix(name, name_len(name))
}

/// `name_len` is the position of the first NUL, or the length when there is none.
pub proof fn lemma_name_len(name: Seq<u8>, n: int)
    requires
        0 <= n <= name.len(),
        forall|k: int| 0 <= k < n ==> name[k] != 0,
        n == name.len() || name[n] == 0,
    ensures
        name_len(name) == n,
    decreases n,
{
    if n > 0 {
        lemma_name_len(name.drop_first(), n - 1);
    }
}

/// Packs a lump name into its 64-bit key.
pub fn hash_lump_name(name: &[u8]) -> (key: u64)
    ensures
        key as int == lump_key(name@),
{
    let mut key: u64 = 0;
    let mut i: usize = 0;
    while i < name.len()
        invariant
            i <= name@.len(),
            forall|k: int| 0 <= k < i ==> name@[k] != 0,
            key as int == key_of_prefix(name@, i as int),
        decreases name@.len() - i,
    {
        let b: u8 = name[i];
        if b == 0 {
            proof {
                lemma_name_len(name@, i as int);
            }
            return key;
        }
        let bb: u8 = if 97 <= b && b <= 122 {
            b - 32
        } else {
            b
        };
        let wide: u64 = bb as u64;
        assert(((key << 8) | wide) == (key * 256 + wide) % 0x1_0000_0000_0000_0000) by (bit_vector)
            requires
                wide < 256,
        ;
        key = (key << 8) | wide;
        i += 1;
    }
    proof {
        lemma_name_len(name@, i as int);
    }
    key
}

/// Reads a little-endian `u16` at byte offset `off` of a record.
pub fn u16_field(rec: &[u8], off: usize) -> (r: u16)
    requires
        off + 2 <= rec@.len(),
    ensures
        r as int == u16_at(rec@, off as int),
{
    let len: usize = rec.len();
    assert(off + 2 <= len);
    buf_to_u16(slice_subrange(rec, off, off + 2))
}

/// Reads a little-endian `i16` at byte offset `off` of a record.
pub fn i16_field(rec: &[u8], off: usize) -> (r: i16)
    requires
        off + 2 <= rec@.len(),
    ensures
        r as int == i16_at(rec@, off as int),
{
    let len: usize = rec.len();
    assert(off + 2 <= len);
    buf_to_i16(slice_subrange(rec, off, off + 2))
}

/// Reads a little-endian `u32` at byte offset `off` of a record.
pub fn u32_field(rec: &[u8], off: usize) -> (r: u32)
    requires
        off + 4 <= rec@.len(),
    ensures
        r as int == u32_at(rec@, off as int),
{
    let len: usize = rec.len();
    assert(off + 4 <= len);
    buf_to_u32(slice_subrange(rec, off, off + 4))
}

/// The key of the eight-byte padded name at byte offset `off` of a record.
pub fn name_field(rec: &[u8], off: usize) -> (r: u64)
    requires
        off + 8 <= rec@.len(),
    ensures
        r as int == lump_key(rec@.subrange(off as int, off + 8)),
{
    let len: usize = rec.len();
    assert(off + 8 <= len);
    hash_lump_name(slice_subrange(rec, off, off + 8))
}

/// Whether every byte is an ASCII decimal digit.
pub open spec fn all_digits(s: Seq<u8>) -> bool {
    forall|k: int| 0 <= k < s.len() ==> 48 <= #[trigger] s[k] <= 57
}

/// The decimal value of the first `n` digits.
pub open spec fn digits_value(s: Seq<u8>, n: int) -> int
    decreases n,
{
    if n <= 0 {
        0
    } else {
        digits_value(s, n - 1) * 10 + (s[n - 1] - 48)
    }
}

/// `10^n`.
pub open spec fn pow10(n: int) -> int
    decreases n,
{
    if n <= 0 {
        1
    } else {
        10 * pow10(n - 1)
    }
}

/// Whether the value of every leading run of digits fits in 32 bits:
/// what the digits read so far are worth never passes `u32::MAX`.
pub open spec fn digits_fit(s: Seq<u8>) -> bool {
    forall|n: int|
        0 <= n <= s.len() && all_digits(s.subrange(0, n)) ==> #[trigger] digits_value(s, n)
            <= u32::MAX
}

/// A number of `n` digits is below `10^n`.
pub proof fn lemma_digits_bound(s: Seq<u8>, n: int)
    requires
        0 <= n <= s.len(),
        forall|k: int| 0 <= k < n ==> 48 <= #[trigger] s[k] <= 57,
    ensures
        0 <= digits_value(s, n) < pow10(n),
    decreases n,
{
    if n > 0 {
        lemma_digits_bound(s, n - 1);
    }
}

/// Up to nine digits always fit in 32 bits.
pub proof fn lemma_short_digits_fit(s: Seq<u8>)
    requires
        s.len() <= 9,
    ensures
        digits_fit(s),
        all_digits(s) ==> digits_value(s, s.len() as int) < 1_000_000_000,
{
    reveal_with_fuel(pow10, 11);
    assert forall|n: int| 0 <= n <= s.len() && all_digits(s.subrange(0, n)) implies #[trigger] digits_value(
        s,
        n,
    ) <= u32::MAX by {
        assert forall|k: int| 0 <= k < n implies 48 <= #[trigger] s[k] <= 57 by {
            assert(s.subrange(0, n)[k] == s[k]);
        }
        lemma_digits_bound(s, n);
        assert(pow10(n) <= 1_000_000_000);
    }
    if all_digits(s) {
        lemma_digits_bound(s, s.len() as int);
        assert(pow10(s.len() as int) <= 1_000_000_000);
    }
}

/// Parses the bytes of an unsigned decimal number; any other byte makes
/// it `None`. The digits are read from the left, so the value of each
/// leading run of digits must fit in 32 bits.
pub fn parse_digits(bytes: &[u8]) -> (r: Option<u32>)
    requires
        digits_fit(bytes@),
    ensures
        match r {
            Some(v) => all_digits(bytes@) && v as int == digits_value(bytes@, bytes@.len() as int),
            None => !all_digits(bytes@),
        },
{
    let mut num: u32 = 0;
    let mut i: usize = 0;
    while i < bytes.len()
        invariant
            i <= bytes@.len(),
            digits_fit(bytes@),
            forall|k: int| 0 <= k < i ==> 48 <= #[trigger] bytes@[k] <= 57,
            num as int == digits_value(bytes@, i as int),
        decreases bytes@.len() - i,
    {
        let b: u8 = bytes[i];
        if b < 48 || b > 57 {
            assert(!(48 <= bytes@[i as int] <= 57));
            return None;
        }
        proof {
            let head = bytes@.subrange(0, i + 1);
            assert forall|k: int| 0 <= k < head.len() implies 48 <= #[trigger] head[k] <= 57 by {
                assert(head[k] == bytes@[k]);
            }
            assert(digits_value(bytes@, i + 1) <= u32::MAX);
        }
        num = num * 10 + ((b - 48) as u32);
        i += 1;
    }
    Some(num)
}

/// Parses an unsigned decimal number; any other character makes it
/// `None`. The value of each leading run of digits must fit in 32 bits.
pub fn atoi(s: &str) -> (r: Option<u32>)
    requires
        digits_fit(s.spec_bytes()),
    ensures
        match r {
            Some(v) => all_digits(s.spec_bytes()) && v as int == digits_value(
                s.spec_bytes(),
                s.spec_bytes().len() as int,
            ),
            None => !all_digits(s.spec_bytes()),
        },
{
    parse_digits(s.as_bytes())
}

} // verus!
