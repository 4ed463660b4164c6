use vstd::prelude::*;

verus! {

/// The little-endian value of four bytes.
pub open spec fn le4(b0: u8, b1: u8, b2: u8, b3: u8) -> u32 {
    (b0 as u32) | ((b1 as u32) << 8u32) | ((b2 as u32) << 16u32) | ((b3 as u32) << 24u32)
}

/// The little-endian `u32` that starts at `pos` in `s`.
pub open spec fn le_at(s: Seq<u8>, pos: int) -> u32 {
    le4(s[pos], s[pos + 1], s[pos + 2], s[pos + 3])
}

/// The four little-endian bytes of `v`.
pub open spec fn le_bytes(v: u32) -> Seq<u8> {
    seq![
        (v & 0xffu32) as u8,
        ((v >> 8u32) & 0xffu32) as u8,
        ((v >> 16u32) & 0xffu32) as u8,
        ((v >> 24u32) & 0xffu32) as u8,
    ]
}

proof fn lemma_le4_of_split(v: u32)
    ensures
        le4(
            (v & 0xffu32) as u8,
            ((v >> 8u32) & 0xffu32) as u8,
            ((v >> 16u32) & 0xffu32) as u8,
            ((v >> 24u32) & 0xffu32) as u8,
        ) == v,
{
    assert(le4(
        (v & 0xffu32) as u8,
        ((v >> 8u32) & 0xffu32) as u8,
        ((v >> 16u32) & 0xffu32) as u8,
        ((v >> 24u32) & 0xffu32) as u8,
    ) == v) by (bit_vector);
}

proof fn lemma_split_of_le4(b0: u8, b1: u8, b2: u8, b3: u8)
    ensures
        (le4(b0, b1, b2, b3) & 0xffu32) as u8 == b0,
        ((le4(b0, b1, b2, b3) >> 8u32) & 0xffu32) as u8 == b1,
        ((le4(b0, b1, b2, b3) >> 16u32) & 0xffu32) as u8 == b2,
        ((le4(b0, b1, b2, b3) >> 24u32) & 0xffu32) as u8 == b3,
{
    assert((le4(b0, b1, b2, b3) & 0xffu32) as u8 == b0) by (bit_vector);
    assert(((le4(b0, b1, b2, b3) >> 8u32) & 0xffu32) as u8 == b1) by (bit_vector);
    assert(((le4(b0, b1, b2, b3) >> 16u32) & 0xffu32) as u8 == b2) by (bit_vector);
    assert(((le4(b0, b1, b2, b3) >> 24u32) & 0xffu32) as u8 == b3) by (bit_vector);
}

/// Reading back the four bytes written for `v` gives `v`.
pub proof fn lemma_le_round_trip(v: u32)
    ensures
        le_bytes(v).len() == 4,
        le_at(le_bytes(v), 0) == v,
{
    lemma_le4_of_split(v);
}

/// Writing the value read from four bytes gives those bytes back.
pub proof fn lemma_le_bytes_of_read(s: Seq<u8>, pos: int)
    requires
        0 <= pos,
        pos + 4 <= s.len(),
    ensures
        le_bytes(le_at(s, pos)) == s.subrange(pos, pos + 4),
{
    lemma_split_of_le4(s[pos], s[pos + 1], s[pos + 2], s[pos + 3]);
    assert(le_bytes(le_at(s, pos)) =~= s.subrange(pos, pos + 4));
}

/// Reads a little-endian `u32` at `pos`.
pub fn read_u32_le(data: &[u8], pos: usize) -> (r: u32)
    requires
        pos + 4 <= data@.len(),
    ensures
        r == le_at(data@, pos as int),
{
    (data[pos] as u32) | ((data[pos + 1] as u32) << 8u32) | ((data[pos + 2] as u32) << 16u32) | ((
    data[pos + 3] as u32) << 24u32)
}

/// Appends the four little-endian bytes of `v`.
pub fn push_u32_le(out: &mut Vec<u8>, v: u32)
    ensures
        final(out)@ == old(out)@ + le_bytes(v),
{
    out.push((v & 0xff) as u8);
    out.push(((v >> 8u32) & 0xff) as u8);
    out.push(((v >> 16u32) & 0xff) as u8);
    out.push(((v >> 24u32) & 0xff) as u8);
    assert(final(out)@ =~= old(out)@ + le_bytes(v));
}

/// Appends every byte of `b`.
pub fn push_bytes(out: &mut Vec<u8>, b: &[u8])
    ensures
        final(out)@ == old(out)@ + b@,
{
    let ghost start = out@;
    let mut i: usize = 0;
    while i < b.len()
        invariant
            i <= b@.len(),
            out@ == start + b@.subrange(0, i as int),
        decreases b@.len() - i,
    {
        out.push(b[i]);
        i = i + 1;
        assert(out@ =~= start + b@.subrange(0, i as int));
    }
    assert(b@.subrange(0, b@.len() as int) =~= b@);
}

} // verus!
