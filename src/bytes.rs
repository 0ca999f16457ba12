//! Big-endian integers in frames.
use vstd::prelude::*;

verus! {

/// The four big-endian bytes of `n`.
pub open spec fn be32(n: u32) -> Seq<u8> {
    seq![(n >> 24u32) as u8, (n >> 16u32) as u8, (n >> 8u32) as u8, n as u8]
}

/// The number that four big-endian bytes hold.
pub open spec fn read32(s: Seq<u8>) -> u32 {
    ((s[0] as u32) << 24u32) | ((s[1] as u32) << 16u32) | ((s[2] as u32) << 8u32) | (s[3] as u32)
}

/// The eight big-endian bytes of `n`.
pub open spec fn be64(n: u64) -> Seq<u8> {
    seq![
        (n >> 56u64) as u8, (n >> 48u64) as u8, (n >> 40u64) as u8, (n >> 32u64) as u8,
        (n >> 24u64) as u8, (n >> 16u64) as u8, (n >> 8u64) as u8, n as u8,
    ]
}

/// The number that eight big-endian bytes hold.
pub open spec fn read64(s: Seq<u8>) -> u64 {
    ((s[0] as u64) << 56u64) | ((s[1] as u64) << 48u64) | ((s[2] as u64) << 40u64) | ((
    s[3] as u64) << 32u64) | ((s[4] as u64) << 24u64) | ((s[5] as u64) << 16u64) | ((
    s[6] as u64) << 8u64) | (s[7] as u64)
}

/// Reading the bytes of a number gives it back.
pub proof fn lemma_read32(n: u32)
    ensures
        read32(be32(n)) == n,
{
    let s = be32(n);
    let (a, b, c, d) = ((n >> 24u32) as u8, (n >> 16u32) as u8, (n >> 8u32) as u8, n as u8);
    assert(s[0] == a && s[1] == b && s[2] == c && s[3] == d);
    assert(((a as u32) << 24u32) | ((b as u32) << 16u32) | ((c as u32) << 8u32) | (d as u32)
        == n) by (bit_vector)
        requires
            a == (n >> 24u32) as u8,
            b == (n >> 16u32) as u8,
            c == (n >> 8u32) as u8,
            d == n as u8,
    ;
}

/// Reading the bytes of a number gives it back.
pub proof fn lemma_read64(n: u64)
    ensures
        read64(be64(n)) == n,
{
    let s = be64(n);
    let (a, b, c, d) = ((n >> 56u64) as u8, (n >> 48u64) as u8, (n >> 40u64) as u8, (n
        >> 32u64) as u8);
    let (e, f, g, h) = ((n >> 24u64) as u8, (n >> 16u64) as u8, (n >> 8u64) as u8, n as u8);
    assert(s[0] == a && s[1] == b && s[2] == c && s[3] == d);
    assert(s[4] == e && s[5] == f && s[6] == g && s[7] == h);
    assert(((a as u64) << 56u64) | ((b as u64) << 48u64) | ((c as u64) << 40u64) | ((d as u64)
        << 32u64) | ((e as u64) << 24u64) | ((f as u64) << 16u64) | ((g as u64) << 8u64) | (
    h as u64) == n) by (bit_vector)
        requires
            a == (n >> 56u64) as u8,
            b == (n >> 48u64) as u8,
            c == (n >> 40u64) as u8,
            d == (n >> 32u64) as u8,
            e == (n >> 24u64) as u8,
            f == (n >> 16u64) as u8,
            g == (n >> 8u64) as u8,
            h == n as u8,
    ;
}

/// Appends the big-endian bytes of `n`.
pub fn push_be32(v: &mut Vec<u8>, n: u32)
    ensures
        final(v)@ == old(v)@ + be32(n),
{
    v.push((n >> 24u32) as u8);
    v.push((n >> 16u32) as u8);
    v.push((n >> 8u32) as u8);
    v.push(n as u8);
    assert(final(v)@ =~= old(v)@ + be32(n));
}

/// Appends the big-endian bytes of `n`.
pub fn push_be64(v: &mut Vec<u8>, n: u64)
    ensures
        final(v)@ == old(v)@ + be64(n),
{
    v.push((n >> 56u64) as u8);
    v.push((n >> 48u64) as u8);
    v.push((n >> 40u64) as u8);
    v.push((n >> 32u64) as u8);
    v.push((n >> 24u64) as u8);
    v.push((n >> 16u64) as u8);
    v.push((n >> 8u64) as u8);
    v.push(n as u8);
    assert(final(v)@ =~= old(v)@ + be64(n));
}

/// Reads the number whose big-endian bytes start at `at`.
pub fn get_be32(s: &[u8], at: usize) -> (r: u32)
    requires
        at + 4 <= s@.len(),
    ensures
        r == read32(s@.subrange(at as int, at + 4)),
{
    ((s[at] as u32) << 24u32) | ((s[at + 1] as u32) << 16u32) | ((s[at + 2] as u32) << 8u32) | (
    s[at + 3] as u32)
}

/// Reads the number whose big-endian bytes start at `at`.
pub fn get_be64(s: &[u8], at: usize) -> (r: u64)
    requires
        at + 8 <= s@.len(),
    ensures
        r == read64(s@.subrange(at as int, at + 8)),
{
    ((s[at] as u64) << 56u64) | ((s[at + 1] as u64) << 48u64) | ((s[at + 2] as u64) << 40u64)
        | ((s[at + 3] as u64) << 32u64) | ((s[at + 4] as u64) << 24u64) | ((s[at + 5] as u64)
        << 16u64) | ((s[at + 6] as u64) << 8u64) | (s[at + 7] as u64)
}


/// Appends `s[from..to]` to `v`.
pub fn push_range(v: &mut Vec<u8>, s: &[u8], from: usize, to: usize)
    requires
        from <= to <= s@.len(),
    ensures
        final(v)@ == old(v)@ + s@.subrange(from as int, to as int),
{
    let mut i: usize = from;
    while i < to
        invariant
            from <= i <= to <= s@.len(),
            v@ == old(v)@ + s@.subrange(from as int, i as int),
        decreases to - i,
    {
        v.push(s[i]);
        i = i + 1;
        assert(v@ =~= old(v)@ + s@.subrange(from as int, i as int));
    }
}

/// A copy of `s[from..to]`.
pub fn copy_range(s: &[u8], from: usize, to: usize) -> (r: Vec<u8>)
    requires
        from <= to <= s@.len(),
    ensures
        r@ == s@.subrange(from as int, to as int),
{
    let mut r: Vec<u8> = Vec::new();
    push_range(&mut r, s, from, to);
    assert(r@ =~= s@.subrange(from as int, to as int));
    r
}


/// Four bytes are the bytes of the number they hold.
pub proof fn lemma_be32_of_read(s: Seq<u8>)
    requires
        s.len() == 4,
    ensures
        be32(read32(s)) == s,
{
    let (a, b, c, d) = (s[0], s[1], s[2], s[3]);
    let n = read32(s);
    assert(n == ((a as u32) << 24u32) | ((b as u32) << 16u32) | ((c as u32) << 8u32) | (
    d as u32));
    assert((n >> 24u32) as u8 == a && (n >> 16u32) as u8 == b && (n >> 8u32) as u8 == c
        && n as u8 == d) by (bit_vector)
        requires
            n == ((a as u32) << 24u32) | ((b as u32) << 16u32) | ((c as u32) << 8u32) | (
            d as u32),
    ;
    assert(be32(n) =~= s);
}


/// Whether two byte strings are equal.
pub fn same_bytes(a: &[u8], b: &[u8]) -> (r: bool)
    ensures
        r == (a@ == b@),
{
    if a.len() != b.len() {
        return false;
    }
    let mut i: usize = 0;
    while i < a.len()
        invariant
            a@.len() == b@.len(),
            i <= a@.len(),
            forall|j: int| 0 <= j < i ==> a@[j] == b@[j],
        decreases a@.len() - i,
    {
        if a[i] != b[i] {
            return false;
        }
        i = i + 1;
    }
    assert(a@ =~= b@);
    true
}

} // verus!
