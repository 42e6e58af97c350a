//! Little-endian encoding of integers into byte buffers.
use vstd::prelude::*;

verus! {

/// Byte `k` (counting from the least significant) of `v`.
pub open spec fn le_byte(v: u64, k: nat) -> u8 {
    ((v >> (8 * k) as u64) & 0xff) as u8
}

/// The 8-byte little-endian value stored at `off` in `s`.
pub open spec fn read_u64_le(s: Seq<u8>, off: int) -> u64 {
    s[off] as u64 | (s[off + 1] as u64) << 8u64 | (s[off + 2] as u64) << 16u64 | (s[off + 3] as u64)
        << 24u64 | (s[off + 4] as u64) << 32u64 | (s[off + 5] as u64) << 40u64 | (s[off + 6] as u64)
        << 48u64 | (s[off + 7] as u64) << 56u64
}

/// The 4-byte little-endian value stored at `off` in `s`.
pub open spec fn read_u32_le(s: Seq<u8>, off: int) -> u32 {
    s[off] as u32 | (s[off + 1] as u32) << 8u32 | (s[off + 2] as u32) << 16u32 | (s[off + 3] as u32)
        << 24u32
}

/// `s` with the `width` low bytes of `v` stored little-endian at `off`.
pub open spec fn stored_le(s: Seq<u8>, off: int, v: u64, width: nat) -> Seq<u8> {
    Seq::new(
        s.len(),
        |i: int|
            if off <= i < off + width {
                le_byte(v, (i - off) as nat)
            } else {
                s[i]
            },
    )
}

/// `s` with `src` copied over it from position `off` on; the length is kept.
pub open spec fn overwritten<A>(s: Seq<A>, off: int, src: Seq<A>) -> Seq<A> {
    Seq::new(
        s.len(),
        |i: int|
            if off <= i < off + src.len() {
                src[i - off]
            } else {
                s[i]
            },
    )
}

/// Eight bytes that hold the little-endian bytes of `v` read back as `v`.
pub proof fn lemma_read_le_bytes(s: Seq<u8>, off: int, v: u64)
    requires
        0 <= off,
        off + 8 <= s.len(),
        forall|k: nat| k < 8 ==> s[off + k] == le_byte(v, k),
    ensures
        read_u64_le(s, off) == v,
{
    assert(v >> 0u64 == v) by (bit_vector);
    assert(s[off + 0nat] == le_byte(v, 0));
    assert(s[off + 1nat] == le_byte(v, 1));
    assert(s[off + 2nat] == le_byte(v, 2));
    assert(s[off + 3nat] == le_byte(v, 3));
    assert(s[off + 4nat] == le_byte(v, 4));
    assert(s[off + 5nat] == le_byte(v, 5));
    assert(s[off + 6nat] == le_byte(v, 6));
    assert(s[off + 7nat] == le_byte(v, 7));
    lemma_read_stored_u64(s, off, v);
    let t = stored_le(s, off, v, 8);
    assert(t[off] == s[off]);
    assert(t[off + 1] == s[off + 1]);
    assert(t[off + 2] == s[off + 2]);
    assert(t[off + 3] == s[off + 3]);
    assert(t[off + 4] == s[off + 4]);
    assert(t[off + 5] == s[off + 5]);
    assert(t[off + 6] == s[off + 6]);
    assert(t[off + 7] == s[off + 7]);
}

/// Reading back eight stored bytes gives the stored value.
pub proof fn lemma_read_stored_u64(s: Seq<u8>, off: int, v: u64)
    requires
        0 <= off,
        off + 8 <= s.len(),
    ensures
        read_u64_le(stored_le(s, off, v, 8), off) == v,
{
    let t = stored_le(s, off, v, 8);
    assert(v >> 0u64 == v) by (bit_vector);
    assert(t[off] == (v & 0xff) as u8);
    assert(t[off + 1] == ((v >> 8u64) & 0xff) as u8);
    assert(t[off + 2] == ((v >> 16u64) & 0xff) as u8);
    assert(t[off + 3] == ((v >> 24u64) & 0xff) as u8);
    assert(t[off + 4] == ((v >> 32u64) & 0xff) as u8);
    assert(t[off + 5] == ((v >> 40u64) & 0xff) as u8);
    assert(t[off + 6] == ((v >> 48u64) & 0xff) as u8);
    assert(t[off + 7] == ((v >> 56u64) & 0xff) as u8);
    assert(((v & 0xff) as u8) as u64 | (((v >> 8) & 0xff) as u8 as u64) << 8u64 | (((v >> 16)
        & 0xff) as u8 as u64) << 16u64 | (((v >> 24) & 0xff) as u8 as u64) << 24u64 | (((v >> 32)
        & 0xff) as u8 as u64) << 32u64 | (((v >> 40) & 0xff) as u8 as u64) << 40u64 | (((v >> 48)
        & 0xff) as u8 as u64) << 48u64 | (((v >> 56) & 0xff) as u8 as u64) << 56u64 == v)
        by (bit_vector);
}

/// Reading back four stored bytes gives the low 32 bits of the stored value.
pub proof fn lemma_read_stored_u32(s: Seq<u8>, off: int, v: u64)
    requires
        0 <= off,
        off + 4 <= s.len(),
        v < 0x1_0000_0000,
    ensures
        read_u32_le(stored_le(s, off, v, 4), off) as u64 == v,
{
    let t = stored_le(s, off, v, 4);
    assert(v >> 0u64 == v) by (bit_vector);
    assert(t[off] == le_byte(v, 0));
    assert(t[off + 1] == le_byte(v, 1));
    assert(t[off + 2] == le_byte(v, 2));
    assert(t[off + 3] == le_byte(v, 3));
    assert(((v & 0xff) as u8) as u32 | (((v >> 8) & 0xff) as u8 as u32) << 8u32 | (((v >> 16)
        & 0xff) as u8 as u32) << 16u32 | (((v >> 24) & 0xff) as u8 as u32) << 24u32 == v as u32 && (v as u32) as u64 == v)
        by (bit_vector)
        requires
            v < 0x1_0000_0000u64,
    ;
}

/// Stores the `width` low bytes of `v` little-endian at `off` in `buf`.
pub fn store_le(buf: &mut Vec<u8>, off: usize, v: u64, width: usize)
    requires
        width <= 8,
        off + width <= old(buf)@.len(),
    ensures
        final(buf)@ == stored_le(old(buf)@, off as int, v, width as nat),
{
    let ghost s = buf@;
    let n = buf.len();
    let mut k: usize = 0;
    while k < width
        invariant
            k <= width <= 8,
            off + width <= s.len(),
            buf@.len() == s.len(),
            n == s.len(),
            forall|i: int|
                0 <= i < s.len() ==> buf@[i] == if off <= i < off + k {
                    le_byte(v, (i - off) as nat)
                } else {
                    s[i]
                },
        decreases width - k,
    {
        let b: u8 = ((v >> (8 * k) as u64) & 0xff) as u8;
        buf.set(off + k, b);
        k = k + 1;
    }
    assert(buf@ =~= stored_le(s, off as int, v, width as nat));
}

} // verus!
