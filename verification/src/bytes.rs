//! Little-endian integers and fixed-width text fields read from a byte buffer.

use vstd::prelude::*;
use vstd::slice::slice_subrange;
use vstd::utf8::{decode_utf8, valid_utf8};

verus! {

/// The 16-bit little-endian value stored at `off`.
pub open spec fn u16_le(s: Seq<u8>, off: int) -> int
    recommends
        0 <= off,
        off + 2 <= s.len(),
{
    s[off] + 256 * s[off + 1]
}

/// The 32-bit little-endian value stored at `off`.
pub open spec fn u32_le(s: Seq<u8>, off: int) -> int
    recommends
        0 <= off,
        off + 4 <= s.len(),
{
    s[off] + 256 * s[off + 1] + 65536 * s[off + 2] + 16777216 * s[off + 3]
}

/// Reads the 16-bit little-endian value stored at `offset`.
pub fn read_u16(data: &[u8], offset: usize) -> (v: u16)
    requires
        offset + 2 <= data@.len(),
    ensures
        v == u16_le(data@, offset as int),
{
    let lo: u16 = data[offset] as u16;
    let hi: u16 = data[offset + 1] as u16;
    lo + hi * 256
}

/// Reads the 32-bit little-endian value stored at `offset`.
pub fn read_usize(data: &[u8], offset: usize) -> (v: usize)
    requires
        offset + 4 <= data@.len(),
    ensures
        v == u32_le(data@, offset as int),
{
    let b0: u32 = data[offset] as u32;
    let b1: u32 = data[offset + 1] as u32;
    let b2: u32 = data[offset + 2] as u32;
    let b3: u32 = data[offset + 3] as u32;
    let v: u32 = b0 + b1 * 256 + b2 * 65536 + b3 * 16777216;
    v as usize
}

/// The number of bytes of `s` that stand before its first NUL byte; all of
/// them where it holds none.
pub open spec fn nul_pos(s: Seq<u8>) -> nat
    decreases s.len(),
{
    if s.len() == 0 || s[0] == 0 {
        0
    } else {
        1 + nul_pos(s.drop_first())
    }
}

/// `nul_pos` is the one position that no NUL byte precedes and that is
/// either the end of the sequence or a NUL byte.
pub proof fn lemma_nul_pos(s: Seq<u8>, n: int)
    requires
        0 <= n <= s.len(),
        forall|j: int| 0 <= j < n ==> s[j] != 0,
        n == s.len() || s[n] == 0,
    ensures
        nul_pos(s) == n,
    decreases n,
{
    if n > 0 {
        let t = s.drop_first();
        assert forall|j: int| 0 <= j < n - 1 implies t[j] != 0 by {
            assert(t[j] == s[j + 1]);
        }
        lemma_nul_pos(t, n - 1);
    }
}

/// Whether `c` has the Unicode property White_Space.
pub open spec fn is_white_space(c: char) -> bool {
    let v = c as u32;
    ||| 0x09 <= v <= 0x0d
    ||| v == 0x20
    ||| v == 0x85
    ||| v == 0xa0
    ||| v == 0x1680
    ||| 0x2000 <= v <= 0x200a
    ||| v == 0x2028
    ||| v == 0x2029
    ||| v == 0x202f
    ||| v == 0x205f
    ||| v == 0x3000
}

/// `s` without the white space at its end.
pub open spec fn trim_trailing(s: Seq<char>) -> Seq<char>
    decreases s.len(),
{
    if s.len() > 0 && is_white_space(s.last()) {
        trim_trailing(s.drop_last())
    } else {
        s
    }
}

/// The text that a permissive UTF-8 decoder makes of `bytes`, in which each
/// invalid sequence is replaced by U+FFFD.
pub uninterp spec fn utf8_lossy(bytes: Seq<u8>) -> Seq<char>;

/// The text of the field of `len` bytes at `off`: its bytes up to the first
/// NUL, decoded permissively, without trailing white space.
pub open spec fn text_field(s: Seq<u8>, off: int, len: int) -> Seq<char>
    recommends
        0 <= off,
        0 <= len,
        off + len <= s.len(),
{
    let field = s.subrange(off, off + len);
    trim_trailing(utf8_lossy(field.subrange(0, nul_pos(field) as int)))
}

/// Calls `String::from_utf8_lossy`. The result is a function of the bytes
/// alone; where they are valid UTF-8 it is their decoding.
#[verifier::external_body]
fn decode_lossy(bytes: &[u8]) -> (s: String)
    ensures
        s@ == utf8_lossy(bytes@),
        valid_utf8(bytes@) ==> s@ == decode_utf8(bytes@),
{
    String::from_utf8_lossy(bytes).into_owned()
}

/// Calls `str::trim_end`, which returns the slice that is left when the
/// characters with the property White_Space are removed from the end.
#[verifier::external_body]
fn trim_end<'a>(s: &'a str) -> (t: &'a str)
    ensures
        t@ == trim_trailing(s@),
{
    s.trim_end()
}

/// Reads the text field of `len` bytes at `offset`.
pub fn read_string(data: &[u8], offset: usize, len: usize) -> (s: String)
    requires
        offset + len <= data@.len(),
    ensures
        s@ == text_field(data@, offset as int, len as int),
{
    let ghost field = data@.subrange(offset as int, offset + len);
    let total: usize = data.len();
    let mut n: usize = 0;
    while n < len && data[offset + n] != 0
        invariant
            n <= len,
            offset + len <= total == data@.len(),
            field == data@.subrange(offset as int, offset + len),
            forall|j: int| 0 <= j < n ==> field[j] != 0,
        decreases len - n,
    {
        n += 1;
    }
    proof {
        lemma_nul_pos(field, n as int);
        assert(data@.subrange(offset as int, offset + n) =~= field.subrange(0, n as int));
    }
    let text = decode_lossy(slice_subrange(data, offset, offset + n));
    trim_end(text.as_str()).to_owned()
}

} // verus!
