use vstd::prelude::*;

verus! {

/// The two bytes of `p` in network (big-endian) order.
pub open spec fn be16(p: u16) -> Seq<u8> {
    seq![(p / 256) as u8, (p % 256) as u8]
}

/// The `u16` that the bytes `hi`, `lo` spell in network order.
pub open spec fn from_be16(hi: u8, lo: u8) -> u16 {
    (hi as int * 256 + lo as int) as u16
}

pub proof fn lemma_be16_roundtrip(p: u16)
    ensures
        from_be16(be16(p)[0], be16(p)[1]) == p,
{
}

pub proof fn lemma_from_be16_roundtrip(hi: u8, lo: u8)
    ensures
        be16(from_be16(hi, lo)) == seq![hi, lo],
{
    let v = hi as int * 256 + lo as int;
    assert(v / 256 == hi as int && v % 256 == lo as int) by (nonlinear_arith)
        requires
            v == hi as int * 256 + lo as int,
            0 <= lo < 256,
            0 <= hi < 256,
    ;
    assert(be16(from_be16(hi, lo)) =~= seq![hi, lo]);
}

/// Appends `s` to `v`.
pub fn extend_bytes(v: &mut Vec<u8>, s: &[u8])
    ensures
        final(v)@ == old(v)@ + s@,
{
    v.extend_from_slice(s);
    assert(final(v)@ =~= old(v)@ + s@);
}

/// Appends the bytes of `a` to `v`.
pub fn extend_array<const N: usize>(v: &mut Vec<u8>, a: &[u8; N])
    ensures
        final(v)@ == old(v)@ + a@,
{
    let ghost start = v@;
    let mut i: usize = 0;
    while i < N
        invariant
            0 <= i <= N,
            a@.len() == N,
            v@ == start + a@.take(i as int),
        decreases N - i,
    {
        v.push(a[i]);
        assert(a@.take(i as int + 1) =~= a@.take(i as int).push(a@[i as int]));
        i = i + 1;
    }
    assert(a@.take(N as int) =~= a@);
}

/// Appends the two bytes of `p` in network order.
pub fn push_be16(v: &mut Vec<u8>, p: u16)
    ensures
        final(v)@ == old(v)@ + be16(p),
{
    v.push((p / 256) as u8);
    v.push((p % 256) as u8);
    assert(final(v)@ =~= old(v)@ + be16(p));
}

/// The `u16` in network order at `b[i]`, `b[i + 1]`.
pub fn read_be16(b: &[u8], i: usize) -> (r: u16)
    requires
        i + 1 < b@.len(),
    ensures
        r == from_be16(b@[i as int], b@[i + 1]),
{
    (b[i] as u16) * 256 + (b[i + 1] as u16)
}

} // verus!
