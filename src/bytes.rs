use vstd::prelude::*;

verus! {

/// Whether `p` is a prefix of `s`.
pub open spec fn has_prefix(s: Seq<u8>, p: Seq<u8>) -> bool {
    p.len() <= s.len() && s.subrange(0, p.len() as int) == p
}

/// The little-endian 32-bit number stored at `b[i..i + 4]`.
pub open spec fn le32(b: Seq<u8>, i: int) -> int {
    b[i] as int + b[i + 1] as int * 256 + b[i + 2] as int * 65536 + b[i + 3] as int * 16777216
}

/// Tests whether `p` is a prefix of `s`.
pub fn starts_with_bytes(s: &[u8], p: &[u8]) -> (r: bool)
    ensures
        r == has_prefix(s@, p@),
{
    if p.len() > s.len() {
        return false;
    }
    let mut i: usize = 0;
    while i < p.len()
        invariant
            p@.len() <= s@.len(),
            i <= p@.len(),
            forall|j: int| 0 <= j < i ==> s@[j] == p@[j],
        decreases p@.len() - i,
    {
        if s[i] != p[i] {
            assert(s@.subrange(0, p@.len() as int)[i as int] != p@[i as int]);
            return false;
        }
        i = i + 1;
    }
    assert(s@.subrange(0, p@.len() as int) =~= p@);
    true
}

/// Tests two byte strings for equality.
pub fn bytes_eq(a: &[u8], b: &[u8]) -> (r: bool)
    ensures
        r == (a@ == b@),
{
    if a.len() != b.len() {
        return false;
    }
    let r = starts_with_bytes(a, b);
    assert(a@.subrange(0, b@.len() as int) =~= a@);
    r
}

/// Reads the little-endian 32-bit number at `b[i..i + 4]`.
pub fn read_le32(b: &[u8], i: usize) -> (r: u64)
    requires
        i + 4 <= b@.len(),
    ensures
        r as int == le32(b@, i as int),
{
    b[i] as u64 + b[i + 1] as u64 * 256 + b[i + 2] as u64 * 65536 + b[i + 3] as u64 * 16777216
}

/// Copies `b[start..end]` into a new vector.
pub fn copy_range(b: &[u8], start: usize, end: usize) -> (r: Vec<u8>)
    requires
        start <= end <= b@.len(),
    ensures
        r@ == b@.subrange(start as int, end as int),
{
    let mut r: Vec<u8> = Vec::new();
    let mut i: usize = start;
    while i < end
        invariant
            start <= i <= end <= b@.len(),
            r@ == b@.subrange(start as int, i as int),
        decreases end - i,
    {
        r.push(b[i]);
        assert(r@ =~= b@.subrange(start as int, i + 1));
        i = i + 1;
    }
    r
}

} // verus!
