//! Bounds-checked little-endian reads over an in-memory byte blob, and the
//! spec-level functions that every parsing contract of the crate is stated
//! over.

use vstd::prelude::*;

verus! {

/// Little-endian 16-bit value found at byte offset `i` of `d`.
pub open spec fn le16(d: Seq<u8>, i: int) -> int {
    d[i] + 0x100 * d[i + 1]
}

/// Little-endian 32-bit value found at byte offset `i` of `d`.
pub open spec fn le32(d: Seq<u8>, i: int) -> int {
    le16(d, i) + 0x1_0000 * le16(d, i + 2)
}

/// Little-endian 64-bit value found at byte offset `i` of `d`.
pub open spec fn le64(d: Seq<u8>, i: int) -> int {
    le32(d, i) + 0x1_0000_0000 * le32(d, i + 4)
}

/// The byte at `pos`, or `None` at or past the end of the blob.
pub fn read_u8(d: &Vec<u8>, pos: u64) -> (r: Option<u8>)
    ensures
        match r {
            Some(v) => pos < d@.len() && v == d@[pos as int],
            None => pos >= d@.len(),
        },
{
    if pos < d.len() as u64 {
        Some(d[pos as usize])
    } else {
        None
    }
}

/// The little-endian `u16` at `pos`, or `None` if two bytes are not there.
pub fn read_u16(d: &Vec<u8>, pos: u64) -> (r: Option<u16>)
    ensures
        match r {
            Some(v) => pos + 2 <= d@.len() && v == le16(d@, pos as int),
            None => pos + 2 > d@.len(),
        },
{
    if pos < d.len() as u64 && d.len() as u64 - pos >= 2 {
        let b0 = d[pos as usize];
        let b1 = d[(pos + 1) as usize];
        Some(b0 as u16 + 0x100 * b1 as u16)
    } else {
        None
    }
}

/// The little-endian `u32` at `pos`, or `None` if four bytes are not there.
pub fn read_u32(d: &Vec<u8>, pos: u64) -> (r: Option<u32>)
    ensures
        match r {
            Some(v) => pos + 4 <= d@.len() && v == le32(d@, pos as int),
            None => pos + 4 > d@.len(),
        },
{
    if pos < d.len() as u64 && d.len() as u64 - pos >= 4 {
        let lo = read_u16(d, pos).unwrap();
        let hi = read_u16(d, pos + 2).unwrap();
        Some(lo as u32 + 0x1_0000 * hi as u32)
    } else {
        None
    }
}

/// The little-endian `u64` at `pos`, or `None` if eight bytes are not there.
pub fn read_u64(d: &Vec<u8>, pos: u64) -> (r: Option<u64>)
    ensures
        match r {
            Some(v) => pos + 8 <= d@.len() && v == le64(d@, pos as int),
            None => pos + 8 > d@.len(),
        },
{
    if pos < d.len() as u64 && d.len() as u64 - pos >= 8 {
        let lo = read_u32(d, pos).unwrap();
        let hi = read_u32(d, pos + 4).unwrap();
        Some(lo as u64 + 0x1_0000_0000 * hi as u64)
    } else {
        None
    }
}

/// A copy of the `n` bytes starting at `pos`, or `None` if they are not
/// all there.
pub fn read_bytes(d: &Vec<u8>, pos: u64, n: usize) -> (r: Option<Vec<u8>>)
    ensures
        match r {
            Some(v) => pos + n <= d@.len() && v@ == d@.subrange(pos as int, pos as int + n as int),
            None => pos + n > d@.len(),
        },
{
    let len: usize = d.len();
    if pos <= len as u64 && len as u64 - pos >= n as u64 {
        let mut out: Vec<u8> = Vec::new();
        let mut i: usize = 0;
        assert(out@ =~= d@.subrange(pos as int, pos as int));
        while i < n
            invariant
                pos + n <= len,
                len == d@.len(),
                i <= n,
                out@ == d@.subrange(pos as int, pos as int + i as int),
            decreases n - i,
        {
            assert(pos + i < len);
            let b = d[(pos + i as u64) as usize];
            out.push(b);
            assert(out@ =~= d@.subrange(pos as int, pos as int + i as int + 1));
            i = i + 1;
        }
        Some(out)
    } else {
        None
    }
}

/// Smallest multiple of `align` at or above `pos`.
pub open spec fn spec_align_up(pos: int, align: int) -> int {
    if pos % align == 0 {
        pos
    } else {
        pos + align - pos % align
    }
}

/// Advances `pos` to the next multiple of `align`; `None` when that does
/// not fit a `u64`.
pub fn align_up(pos: u64, align: u64) -> (r: Option<u64>)
    requires
        align > 0,
    ensures
        match r {
            Some(v) => v == spec_align_up(pos as int, align as int) && pos <= v,
            None => spec_align_up(pos as int, align as int) > u64::MAX,
        },
{
    let rem = pos % align;
    if rem == 0 {
        Some(pos)
    } else {
        pos.checked_add(align - rem)
    }
}

/// One more stride adds one more stride's worth of bytes.
pub proof fn lemma_mul_step(a: int, b: int)
    ensures
        (a + 1) * b == a * b + b,
{
    assert((a + 1) * b == a * b + b) by (nonlinear_arith);
}

/// Multiplying a larger count by a non-negative stride gives no less.
pub proof fn lemma_mul_mono(a1: int, a2: int, b: int)
    requires
        a1 <= a2,
        0 <= b,
    ensures
        a1 * b <= a2 * b,
{
    assert(a1 * b <= a2 * b) by (nonlinear_arith)
        requires
            a1 <= a2,
            0 <= b,
    ;
}

/// A product of non-negative factors is non-negative.
pub proof fn lemma_mul_nonneg(a: int, b: int)
    requires
        0 <= a,
        0 <= b,
    ensures
        0 <= a * b,
{
    assert(0 <= a * b) by (nonlinear_arith)
        requires
            0 <= a,
            0 <= b,
    ;
}

/// Bounds the product of two byte-sized factors.
pub proof fn lemma_mul_u8_bound(a: int, b: int)
    requires
        0 <= a <= 255,
        0 <= b <= 255,
    ensures
        0 <= a * b <= 65025,
{
    assert(0 <= a * b <= 65025) by (nonlinear_arith)
        requires
            0 <= a <= 255,
            0 <= b <= 255,
    ;
}

/// True when every byte of `s` is a 7-bit ASCII code.
pub open spec fn all_ascii(s: Seq<u8>) -> bool {
    forall|i: int| 0 <= i < s.len() ==> s[i] < 128
}

/// The characters spelled by a sequence of ASCII byte codes.
pub open spec fn ascii_chars(s: Seq<u8>) -> Seq<char> {
    Seq::new(s.len(), |i: int| s[i] as char)
}

/// Relies on `std::str::from_utf8`: it succeeds exactly on well-formed
/// UTF-8, and on ASCII input yields the same characters, one per byte.
#[verifier::external_body]
pub fn utf8_to_string(bytes: &Vec<u8>) -> (r: Option<String>)
    ensures
        match r {
            Some(s) => all_ascii(bytes@) ==> s@ == ascii_chars(bytes@),
            None => !all_ascii(bytes@),
        },
{
    match std::str::from_utf8(bytes.as_slice()) {
        Ok(s) => Some(s.to_string()),
        Err(_) => None,
    }
}

/// ASCII code of the upper-case hexadecimal digit for `n`.
pub open spec fn spec_hex_digit(n: int) -> u8 {
    if n < 10 {
        (0x30 + n) as u8
    } else {
        (0x41 + (n - 10)) as u8
    }
}

/// Upper-case hexadecimal digit for a value below 16.
pub fn hex_digit(n: u8) -> (r: u8)
    requires
        n < 16,
    ensures
        r == spec_hex_digit(n as int),
        r < 128,
{
    if n < 10 {
        0x30 + n
    } else {
        0x41 + (n - 10)
    }
}

/// The two ASCII codes of the upper-case hexadecimal spelling of `b`.
pub open spec fn spec_hex_pair(b: int) -> Seq<u8> {
    seq![spec_hex_digit(b / 16), spec_hex_digit(b % 16)]
}

/// Appends the two-digit upper-case hexadecimal spelling of `b` to `out`.
pub fn push_hex_pair(out: &mut Vec<u8>, b: u8)
    ensures
        final(out)@ == old(out)@ + spec_hex_pair(b as int),
{
    out.push(hex_digit(b / 16));
    out.push(hex_digit(b % 16));
    assert(out@ =~= old(out)@ + spec_hex_pair(b as int));
}

} // verus!
