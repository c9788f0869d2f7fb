//! Fixed-width integers in either byte arrangement, and byte-pattern tests.

use vstd::prelude::*;

verus! {

/// The arrangement of the bytes of a multi-byte integer.
#[derive(Clone, Copy, Debug, PartialEq, Eq, Structural)]
pub enum Endian {
    /// Least significant byte first (`II` in a TIFF header).
    Little,
    /// Most significant byte first (`MM` in a TIFF header).
    Big,
}

/// The 16-bit number whose two bytes start at `at` in `s`.
pub open spec fn spec_u16_at(s: Seq<u8>, at: int, e: Endian) -> int {
    match e {
        Endian::Big => s[at] * 0x100 + s[at + 1],
        Endian::Little => s[at] + s[at + 1] * 0x100,
    }
}

/// The 32-bit number whose four bytes start at `at` in `s`.
pub open spec fn spec_u32_at(s: Seq<u8>, at: int, e: Endian) -> int {
    match e {
        Endian::Big => s[at] * 0x100_0000 + s[at + 1] * 0x1_0000 + s[at + 2] * 0x100 + s[at + 3],
        Endian::Little => s[at] + s[at + 1] * 0x100 + s[at + 2] * 0x1_0000 + s[at + 3]
            * 0x100_0000,
    }
}

/// The 64-bit number whose eight bytes start at `at` in `s`.
pub open spec fn spec_u64_at(s: Seq<u8>, at: int, e: Endian) -> int {
    match e {
        Endian::Big => spec_u32_at(s, at, e) * 0x1_0000_0000 + spec_u32_at(s, at + 4, e),
        Endian::Little => spec_u32_at(s, at, e) + spec_u32_at(s, at + 4, e) * 0x1_0000_0000,
    }
}

/// The bytes of the 16-bit number `v`.
pub open spec fn spec_u16_bytes(v: u16, e: Endian) -> Seq<u8> {
    let hi = (v / 0x100) as u8;
    let lo = (v % 0x100) as u8;
    match e {
        Endian::Big => seq![hi, lo],
        Endian::Little => seq![lo, hi],
    }
}

/// The bytes of the 32-bit number `v`.
pub open spec fn spec_u32_bytes(v: u32, e: Endian) -> Seq<u8> {
    let b3 = (v / 0x100_0000) as u8;
    let b2 = (v / 0x1_0000 % 0x100) as u8;
    let b1 = (v / 0x100 % 0x100) as u8;
    let b0 = (v % 0x100) as u8;
    match e {
        Endian::Big => seq![b3, b2, b1, b0],
        Endian::Little => seq![b0, b1, b2, b3],
    }
}

/// Whether the bytes of `pat` stand in `s` from index `at` on.
pub open spec fn spec_has_at(s: Seq<u8>, at: int, pat: Seq<u8>) -> bool {
    &&& 0 <= at
    &&& at + pat.len() <= s.len()
    &&& s.subrange(at, at + pat.len()) == pat
}

/// The signed number with the same 8 bits as `v`.
pub open spec fn spec_i8_of(v: u8) -> int {
    if v < 0x80 {
        v as int
    } else {
        v - 0x100
    }
}

/// The signed number with the same 16 bits as `v`.
pub open spec fn spec_i16_of(v: u16) -> int {
    if v < 0x8000 {
        v as int
    } else {
        v - 0x1_0000
    }
}

/// The signed number with the same 32 bits as `v`.
pub open spec fn spec_i32_of(v: u32) -> int {
    if v < 0x8000_0000 {
        v as int
    } else {
        v - 0x1_0000_0000
    }
}

/// Reads the 16-bit number at `at`, if two bytes are there.
pub fn read_u16(buf: &[u8], at: usize, e: Endian) -> (r: Option<u16>)
    ensures
        r.is_some() <==> at + 2 <= buf@.len(),
        r matches Some(v) ==> v == spec_u16_at(buf@, at as int, e),
{
    if buf.len() < 2 || at > buf.len() - 2 {
        return None;
    }
    let a: u16 = buf[at] as u16;
    let b: u16 = buf[at + 1] as u16;
    match e {
        Endian::Big => Some(a * 0x100 + b),
        Endian::Little => Some(a + b * 0x100),
    }
}

/// Reads the 32-bit number at `at`, if four bytes are there.
pub fn read_u32(buf: &[u8], at: usize, e: Endian) -> (r: Option<u32>)
    ensures
        r.is_some() <==> at + 4 <= buf@.len(),
        r matches Some(v) ==> v == spec_u32_at(buf@, at as int, e),
{
    if buf.len() < 4 || at > buf.len() - 4 {
        return None;
    }
    let a: u32 = buf[at] as u32;
    let b: u32 = buf[at + 1] as u32;
    let c: u32 = buf[at + 2] as u32;
    let d: u32 = buf[at + 3] as u32;
    match e {
        Endian::Big => Some(a * 0x100_0000 + b * 0x1_0000 + c * 0x100 + d),
        Endian::Little => Some(a + b * 0x100 + c * 0x1_0000 + d * 0x100_0000),
    }
}

/// Reads the 64-bit number at `at`, if eight bytes are there.
pub fn read_u64(buf: &[u8], at: usize, e: Endian) -> (r: Option<u64>)
    ensures
        r.is_some() <==> at + 8 <= buf@.len(),
        r matches Some(v) ==> v == spec_u64_at(buf@, at as int, e),
{
    if buf.len() < 8 || at > buf.len() - 8 {
        return None;
    }
    let first = read_u32(buf, at, e);
    let second = read_u32(buf, at + 4, e);
    match (first, second) {
        (Some(x), Some(y)) => {
            let x: u64 = x as u64;
            let y: u64 = y as u64;
            match e {
                Endian::Big => Some(x * 0x1_0000_0000 + y),
                Endian::Little => Some(x + y * 0x1_0000_0000),
            }
        },
        _ => None,
    }
}

/// Appends the two bytes of `v` to `out`.
pub fn put_u16(out: &mut Vec<u8>, v: u16, e: Endian)
    ensures
        final(out)@ == old(out)@ + spec_u16_bytes(v, e),
{
    let hi: u8 = (v / 0x100) as u8;
    let lo: u8 = (v % 0x100) as u8;
    match e {
        Endian::Big => {
            out.push(hi);
            out.push(lo);
        },
        Endian::Little => {
            out.push(lo);
            out.push(hi);
        },
    }
}

/// Appends the four bytes of `v` to `out`.
pub fn put_u32(out: &mut Vec<u8>, v: u32, e: Endian)
    ensures
        final(out)@ == old(out)@ + spec_u32_bytes(v, e),
{
    let b3: u8 = (v / 0x100_0000) as u8;
    let b2: u8 = (v / 0x1_0000 % 0x100) as u8;
    let b1: u8 = (v / 0x100 % 0x100) as u8;
    let b0: u8 = (v % 0x100) as u8;
    match e {
        Endian::Big => {
            out.push(b3);
            out.push(b2);
            out.push(b1);
            out.push(b0);
        },
        Endian::Little => {
            out.push(b0);
            out.push(b1);
            out.push(b2);
            out.push(b3);
        },
    }
}

/// Tells whether the bytes of `pat` stand in `buf` from index `at` on.
pub fn has_at(buf: &[u8], at: usize, pat: &[u8]) -> (r: bool)
    ensures
        r == spec_has_at(buf@, at as int, pat@),
{
    if pat.len() > buf.len() || at > buf.len() - pat.len() {
        return false;
    }
    let mut i: usize = 0;
    while i < pat.len()
        invariant
            i <= pat.len(),
            at + pat.len() <= buf.len(),
            forall|k: int| 0 <= k < i ==> buf@[at + k] == pat@[k],
        decreases pat.len() - i,
    {
        if buf[at + i] != pat[i] {
            assert(buf@.subrange(at as int, at + pat@.len())[i as int] != pat@[i as int]);
            return false;
        }
        i += 1;
    }
    assert(buf@.subrange(at as int, at + pat@.len()) =~= pat@);
    true
}

/// The signed number with the same 8 bits as `v`.
pub fn i8_of(v: u8) -> (r: i8)
    ensures
        r == spec_i8_of(v),
{
    if v < 0x80 {
        v as i8
    } else {
        let w: i16 = v as i16 - 0x100;
        w as i8
    }
}

/// The signed number with the same 16 bits as `v`.
pub fn i16_of(v: u16) -> (r: i16)
    ensures
        r == spec_i16_of(v),
{
    if v < 0x8000 {
        v as i16
    } else {
        let w: i32 = v as i32 - 0x1_0000;
        w as i16
    }
}

/// The signed number with the same 32 bits as `v`.
pub fn i32_of(v: u32) -> (r: i32)
    ensures
        r == spec_i32_of(v),
{
    if v < 0x8000_0000 {
        v as i32
    } else {
        let w: i64 = v as i64 - 0x1_0000_0000;
        w as i32
    }
}

/// Reading back what was written gives the number that was written, in
/// either byte arrangement.
pub proof fn lemma_u16_round_trip(v: u16, e: Endian)
    ensures
        spec_u16_bytes(v, e).len() == 2,
        spec_u16_at(spec_u16_bytes(v, e), 0, e) == v,
{
}

/// Reading back what was written gives the number that was written, in
/// either byte arrangement.
pub proof fn lemma_u32_round_trip(v: u32, e: Endian)
    ensures
        spec_u32_bytes(v, e).len() == 4,
        spec_u32_at(spec_u32_bytes(v, e), 0, e) == v,
{
}

/// A 32-bit number depends on its four bytes only, not on where they stand.
pub proof fn lemma_u32_same_bytes(s1: Seq<u8>, at1: int, s2: Seq<u8>, at2: int, e: Endian)
    requires
        0 <= at1,
        at1 + 4 <= s1.len(),
        0 <= at2,
        at2 + 4 <= s2.len(),
        s1.subrange(at1, at1 + 4) == s2.subrange(at2, at2 + 4),
    ensures
        spec_u32_at(s1, at1, e) == spec_u32_at(s2, at2, e),
{
    let a = s1.subrange(at1, at1 + 4);
    let b = s2.subrange(at2, at2 + 4);
    assert(a[0] == s1[at1] && b[0] == s2[at2]);
    assert(a[1] == s1[at1 + 1] && b[1] == s2[at2 + 1]);
    assert(a[2] == s1[at1 + 2] && b[2] == s2[at2 + 2]);
    assert(a[3] == s1[at1 + 3] && b[3] == s2[at2 + 3]);
}

/// The big-endian number that starts with the value `acc` and goes on with
/// the `n` bytes from `at` on.
pub open spec fn spec_fold(acc: int, s: Seq<u8>, at: int, n: int) -> int
    decreases n,
{
    if n <= 0 {
        acc
    } else {
        spec_fold(acc * 0x100 + s[at], s, at + 1, n - 1)
    }
}

/// Two to the power of eight times `n`, for `n` up to eight.
pub open spec fn spec_cap(n: int) -> int {
    if n <= 0 {
        1
    } else if n == 1 {
        0x100
    } else if n == 2 {
        0x1_0000
    } else if n == 3 {
        0x100_0000
    } else if n == 4 {
        0x1_0000_0000
    } else if n == 5 {
        0x100_0000_0000
    } else if n == 6 {
        0x1_0000_0000_0000
    } else if n == 7 {
        0x100_0000_0000_0000
    } else {
        0x1_0000_0000_0000_0000
    }
}

/// A number of `n` bytes behind a first value of at most `k` bytes is a
/// number of at most `k + n` bytes.
pub proof fn lemma_fold_bound(acc: int, s: Seq<u8>, at: int, n: int, k: int)
    requires
        0 <= n,
        0 <= k,
        k + n <= 8,
        0 <= acc < spec_cap(k),
    ensures
        0 <= spec_fold(acc, s, at, n) < spec_cap(k + n),
    decreases n,
{
    if n > 0 {
        lemma_fold_bound(acc * 0x100 + s[at], s, at + 1, n - 1, k + 1);
    }
}

/// Reads the `n` bytes from `at` on as a big-endian number behind the
/// value `init`.
pub(crate) fn fold_bytes(buf: &[u8], at: usize, n: usize, init: u64, Ghost(k): Ghost<int>) -> (r: u64)
    requires
        at + n <= buf.len(),
        0 <= k,
        k + n <= 8,
        init < spec_cap(k),
    ensures
        r == spec_fold(init as int, buf@, at as int, n as int),
{
    let mut acc: u64 = init;
    let mut i: usize = 0;
    while i < n
        invariant
            i <= n,
            at + n <= buf.len(),
            0 <= k,
            k + n <= 8,
            acc < spec_cap(k + i),
            spec_fold(init as int, buf@, at as int, n as int) == spec_fold(
                acc as int,
                buf@,
                at + i,
                n - i,
            ),
        decreases n - i,
    {
        acc = acc * 0x100 + buf[at + i] as u64;
        i += 1;
    }
    acc
}

/// Reads the `n` bytes from `at` on as one big-endian number, if they are
/// there and are at most eight.
pub fn read_be(buf: &[u8], at: usize, n: usize) -> (r: Option<u64>)
    ensures
        r.is_some() <==> n <= 8 && at + n <= buf@.len(),
        r matches Some(v) ==> v == spec_fold(0, buf@, at as int, n as int),
{
    if n > 8 || n > buf.len() || at > buf.len() - n {
        return None;
    }
    Some(fold_bytes(buf, at, n, 0, Ghost(0)))
}

} // verus!
