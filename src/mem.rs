use vstd::prelude::*;

verus! {

// Little-endian layout of values in a byte sequence.
pub open spec fn le16(s: Seq<u8>, a: int) -> u16 {
    (s[a] as u16) | ((s[a + 1] as u16) << 8u16)
}

pub open spec fn le32(s: Seq<u8>, a: int) -> u32 {
    (s[a] as u32) | ((s[a + 1] as u32) << 8u32) | ((s[a + 2] as u32) << 16u32) | ((s[a
        + 3] as u32) << 24u32)
}

pub open spec fn le64(s: Seq<u8>, a: int) -> u64 {
    (s[a] as u64) | ((s[a + 1] as u64) << 8u64) | ((s[a + 2] as u64) << 16u64) | ((s[a
        + 3] as u64) << 24u64) | ((s[a + 4] as u64) << 32u64) | ((s[a + 5] as u64) << 40u64)
        | ((s[a + 6] as u64) << 48u64) | ((s[a + 7] as u64) << 56u64)
}

pub open spec fn put16(s: Seq<u8>, a: int, v: u16) -> Seq<u8> {
    s.update(a, (v & 0xff) as u8).update(a + 1, ((v >> 8u16) & 0xff) as u8)
}

pub open spec fn put32(s: Seq<u8>, a: int, v: u32) -> Seq<u8> {
    s.update(a, (v & 0xff) as u8).update(a + 1, ((v >> 8u32) & 0xff) as u8).update(
        a + 2,
        ((v >> 16u32) & 0xff) as u8,
    ).update(a + 3, ((v >> 24u32) & 0xff) as u8)
}

pub open spec fn put64(s: Seq<u8>, a: int, v: u64) -> Seq<u8> {
    s.update(a, (v & 0xff) as u8).update(a + 1, ((v >> 8u64) & 0xff) as u8).update(
        a + 2,
        ((v >> 16u64) & 0xff) as u8,
    ).update(a + 3, ((v >> 24u64) & 0xff) as u8).update(a + 4, ((v >> 32u64) & 0xff) as u8).update(
        a + 5,
        ((v >> 40u64) & 0xff) as u8,
    ).update(a + 6, ((v >> 48u64) & 0xff) as u8).update(a + 7, ((v >> 56u64) & 0xff) as u8)
}

/// Reading back a half word just written gives the value written.
pub proof fn lemma_read_write_16(s: Seq<u8>, a: int, v: u16)
    requires
        0 <= a && a + 2 <= s.len(),
    ensures
        le16(put16(s, a, v), a) == v,
{
    let t = put16(s, a, v);
    let (b0, b1) = (t[a], t[a + 1]);
    assert(b0 == (v & 0xff) as u8 && b1 == ((v >> 8u16) & 0xff) as u8);
    assert(((b0 as u16) | ((b1 as u16) << 8u16)) == v) by (bit_vector)
        requires
            b0 == (v & 0xff) as u8 && b1 == ((v >> 8u16) & 0xff) as u8,
    ;
}

/// Reading back a word just written gives the value written.
pub proof fn lemma_read_write_32(s: Seq<u8>, a: int, v: u32)
    requires
        0 <= a && a + 4 <= s.len(),
    ensures
        le32(put32(s, a, v), a) == v,
{
    let t = put32(s, a, v);
    let (b0, b1, b2, b3) = (t[a], t[a + 1], t[a + 2], t[a + 3]);
    assert(b0 == (v & 0xff) as u8 && b1 == ((v >> 8u32) & 0xff) as u8 && b2 == ((v >> 16u32)
        & 0xff) as u8 && b3 == ((v >> 24u32) & 0xff) as u8);
    assert(((b0 as u32) | ((b1 as u32) << 8u32) | ((b2 as u32) << 16u32) | ((b3 as u32)
        << 24u32)) == v) by (bit_vector)
        requires
            b0 == (v & 0xff) as u8 && b1 == ((v >> 8u32) & 0xff) as u8 && b2 == ((v >> 16u32)
                & 0xff) as u8 && b3 == ((v >> 24u32) & 0xff) as u8,
    ;
}

/// Reading back a double word just written gives the value written.
pub proof fn lemma_read_write_64(s: Seq<u8>, a: int, v: u64)
    requires
        0 <= a && a + 8 <= s.len(),
    ensures
        le64(put64(s, a, v), a) == v,
{
    let t = put64(s, a, v);
    let (b0, b1, b2, b3, b4, b5, b6, b7) = (
        t[a],
        t[a + 1],
        t[a + 2],
        t[a + 3],
        t[a + 4],
        t[a + 5],
        t[a + 6],
        t[a + 7],
    );
    assert(b0 == (v & 0xff) as u8 && b1 == ((v >> 8u64) & 0xff) as u8 && b2 == ((v >> 16u64)
        & 0xff) as u8 && b3 == ((v >> 24u64) & 0xff) as u8 && b4 == ((v >> 32u64) & 0xff) as u8
        && b5 == ((v >> 40u64) & 0xff) as u8 && b6 == ((v >> 48u64) & 0xff) as u8 && b7 == ((v
        >> 56u64) & 0xff) as u8);
    assert(((b0 as u64) | ((b1 as u64) << 8u64) | ((b2 as u64) << 16u64) | ((b3 as u64)
        << 24u64) | ((b4 as u64) << 32u64) | ((b5 as u64) << 40u64) | ((b6 as u64) << 48u64) | ((
    b7 as u64) << 56u64)) == v) by (bit_vector)
        requires
            b0 == (v & 0xff) as u8 && b1 == ((v >> 8u64) & 0xff) as u8 && b2 == ((v >> 16u64)
                & 0xff) as u8 && b3 == ((v >> 24u64) & 0xff) as u8 && b4 == ((v >> 32u64) & 0xff)
                as u8 && b5 == ((v >> 40u64) & 0xff) as u8 && b6 == ((v >> 48u64) & 0xff) as u8
                && b7 == ((v >> 56u64) & 0xff) as u8,
    ;
}

} // verus!
