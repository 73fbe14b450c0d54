//! Byte-level helpers: big-endian encodings, byte-string equality and the
//! ASCII case operations that the contract applies to its strings.
use vstd::prelude::*;

verus! {

/// Big-endian bytes of a `u16` (what `u16::to_be_bytes` gives).
pub open spec fn u16_be(x: u16) -> Seq<u8> {
    seq![(x >> 8u16) as u8, x as u8]
}

/// Big-endian bytes of a `u32`.
pub open spec fn u32_be(x: u32) -> Seq<u8> {
    seq![(x >> 24u32) as u8, (x >> 16u32) as u8, (x >> 8u32) as u8, x as u8]
}

/// Big-endian bytes of a `u64`.
pub open spec fn u64_be(x: u64) -> Seq<u8> {
    seq![
        (x >> 56u64) as u8,
        (x >> 48u64) as u8,
        (x >> 40u64) as u8,
        (x >> 32u64) as u8,
        (x >> 24u64) as u8,
        (x >> 16u64) as u8,
        (x >> 8u64) as u8,
        x as u8,
    ]
}

/// Big-endian bytes of a `usize`: four bytes on a 32-bit target, eight on a
/// 64-bit one.
pub open spec fn usize_be(x: usize) -> Seq<u8> {
    if usize::BITS == 64 {
        u64_be(x as u64)
    } else {
        u32_be(x as u32)
    }
}

/// ASCII lower-casing of one byte.
pub open spec fn ascii_lower(b: u8) -> u8 {
    if 65 <= b <= 90 {
        (b + 32) as u8
    } else {
        b
    }
}

/// ASCII upper-casing of one byte.
pub open spec fn ascii_upper(b: u8) -> u8 {
    if 97 <= b <= 122 {
        (b - 32) as u8
    } else {
        b
    }
}

/// Two byte strings are equal when ASCII letters are compared without case.
pub open spec fn eq_ignore_case(a: Seq<u8>, b: Seq<u8>) -> bool {
    a.len() == b.len() && forall|i: int| 0 <= i < a.len() ==> ascii_lower(#[trigger] a[i]) == ascii_lower(b[i])
}

/// Appends the big-endian bytes of `x`.
pub fn push_u16_be(out: &mut Vec<u8>, x: u16)
    ensures
        final(out)@ == old(out)@ + u16_be(x),
{
    out.push(#[verifier::truncate] ((x >> 8u16) as u8));
    out.push(#[verifier::truncate] (x as u8));
    assert(final(out)@ =~= old(out)@ + u16_be(x));
}

/// Appends the big-endian bytes of `x`.
pub fn push_u32_be(out: &mut Vec<u8>, x: u32)
    ensures
        final(out)@ == old(out)@ + u32_be(x),
{
    out.push(#[verifier::truncate] ((x >> 24u32) as u8));
    out.push(#[verifier::truncate] ((x >> 16u32) as u8));
    out.push(#[verifier::truncate] ((x >> 8u32) as u8));
    out.push(#[verifier::truncate] (x as u8));
    assert(final(out)@ =~= old(out)@ + u32_be(x));
}

/// Appends the big-endian bytes of `x`.
pub fn push_u64_be(out: &mut Vec<u8>, x: u64)
    ensures
        final(out)@ == old(out)@ + u64_be(x),
{
    out.push(#[verifier::truncate] ((x >> 56u64) as u8));
    out.push(#[verifier::truncate] ((x >> 48u64) as u8));
    out.push(#[verifier::truncate] ((x >> 40u64) as u8));
    out.push(#[verifier::truncate] ((x >> 32u64) as u8));
    out.push(#[verifier::truncate] ((x >> 24u64) as u8));
    out.push(#[verifier::truncate] ((x >> 16u64) as u8));
    out.push(#[verifier::truncate] ((x >> 8u64) as u8));
    out.push(#[verifier::truncate] (x as u8));
    assert(final(out)@ =~= old(out)@ + u64_be(x));
}

/// Appends the big-endian bytes of `x`, as wide as the target's `usize`.
pub fn push_usize_be(out: &mut Vec<u8>, x: usize)
    ensures
        final(out)@ == old(out)@ + usize_be(x),
{
    if usize::BITS == 64 {
        push_u64_be(out, x as u64);
    } else {
        push_u32_be(out, #[verifier::truncate] (x as u32));
    }
}

/// Appends every byte of `src`.
pub fn push_all(out: &mut Vec<u8>, src: &[u8])
    ensures
        final(out)@ == old(out)@ + src@,
{
    let ghost start = out@;
    let n = src.len();
    let mut i: usize = 0;
    while i < n
        invariant
            n == src@.len(),
            i <= n,
            out@ == start + src@.subrange(0, i as int),
        decreases n - i,
    {
        out.push(src[i]);
        i = i + 1;
        assert(out@ =~= start + src@.subrange(0, i as int));
    }
    assert(src@.subrange(0, n as int) =~= src@);
}

/// A fresh vector holding the bytes of `src`.
pub fn bytes_copy(src: &[u8]) -> (r: Vec<u8>)
    ensures
        r@ == src@,
{
    let mut r: Vec<u8> = Vec::new();
    push_all(&mut r, src);
    assert(r@ =~= src@);
    r
}

/// Byte-for-byte equality of two byte strings.
pub fn bytes_equal(a: &[u8], b: &[u8]) -> (r: bool)
    ensures
        r == (a@ == b@),
{
    if a.len() != b.len() {
        return false;
    }
    let n = a.len();
    let mut i: usize = 0;
    while i < n
        invariant
            n == a@.len(),
            n == b@.len(),
            i <= n,
            forall|j: int| 0 <= j < i ==> a@[j] == b@[j],
        decreases n - i,
    {
        if a[i] != b[i] {
            return false;
        }
        i = i + 1;
    }
    assert(a@ =~= b@);
    true
}

/// ASCII lower-casing of one byte.
pub fn to_ascii_lower(b: u8) -> (r: u8)
    ensures
        r == ascii_lower(b),
{
    if 65 <= b && b <= 90 {
        b + 32
    } else {
        b
    }
}

/// Whether two byte strings are equal when ASCII letters are compared
/// without case (what `<[u8]>::eq_ignore_ascii_case` computes).
pub fn bytes_eq_ignore_ascii_case(a: &[u8], b: &[u8]) -> (r: bool)
    ensures
        r == eq_ignore_case(a@, b@),
{
    if a.len() != b.len() {
        return false;
    }
    let n = a.len();
    let mut i: usize = 0;
    while i < n
        invariant
            n == a@.len(),
            n == b@.len(),
            i <= n,
            forall|j: int| 0 <= j < i ==> ascii_lower(#[trigger] a@[j]) == ascii_lower(b@[j]),
        decreases n - i,
    {
        if to_ascii_lower(a[i]) != to_ascii_lower(b[i]) {
            return false;
        }
        i = i + 1;
    }
    true
}

/// The bytes of `src` with ASCII letters upper-cased (what
/// `<[u8]>::to_ascii_uppercase` returns).
pub fn bytes_to_ascii_uppercase(src: &[u8]) -> (r: Vec<u8>)
    ensures
        r@ == src@.map_values(|b: u8| ascii_upper(b)),
{
    let mut r: Vec<u8> = Vec::new();
    let n = src.len();
    let mut i: usize = 0;
    while i < n
        invariant
            n == src@.len(),
            i <= n,
            r@ == src@.subrange(0, i as int).map_values(|b: u8| ascii_upper(b)),
        decreases n - i,
    {
        let b = src[i];
        let u = if 97 <= b && b <= 122 { b - 32 } else { b };
        r.push(u);
        i = i + 1;
        assert(r@ =~= src@.subrange(0, i as int).map_values(|b: u8| ascii_upper(b)));
    }
    assert(src@.subrange(0, n as int) =~= src@);
    r
}

} // verus!
