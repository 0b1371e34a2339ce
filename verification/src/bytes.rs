//! Little-endian encoding of 64-bit integers, the base layer of the wire
//! format: every fixed-width field of an envelope frame is a `u64` laid out
//! as eight little-endian bytes.

use vstd::prelude::*;

verus! {

/// The eight little-endian bytes of `x`.
pub open spec fn u64_le_bytes(x: u64) -> Seq<u8> {
    seq![
        (x & 0xff) as u8,
        ((x >> 8) & 0xff) as u8,
        ((x >> 16) & 0xff) as u8,
        ((x >> 24) & 0xff) as u8,
        ((x >> 32) & 0xff) as u8,
        ((x >> 40) & 0xff) as u8,
        ((x >> 48) & 0xff) as u8,
        ((x >> 56) & 0xff) as u8,
    ]
}

/// The `u64` read from eight little-endian bytes.
pub open spec fn u64_of_le(b: Seq<u8>) -> u64
    recommends
        b.len() == 8,
{
    (b[0] as u64) | ((b[1] as u64) << 8) | ((b[2] as u64) << 16) | ((b[3] as u64) << 24)
        | ((b[4] as u64) << 32) | ((b[5] as u64) << 40) | ((b[6] as u64) << 48) | (
    (b[7] as u64) << 56)
}

/// Reading back the little-endian bytes of `x` recovers `x`.
pub proof fn lemma_u64_le_round_trip(x: u64)
    ensures
        u64_of_le(u64_le_bytes(x)) == x,
{
    assert(((x & 0xff) as u8 as u64) | (((x >> 8) & 0xff) as u8 as u64) << 8 | (((x >> 16)
        & 0xff) as u8 as u64) << 16 | (((x >> 24) & 0xff) as u8 as u64) << 24 | (((x >> 32)
        & 0xff) as u8 as u64) << 32 | (((x >> 40) & 0xff) as u8 as u64) << 40 | (((x >> 48)
        & 0xff) as u8 as u64) << 48 | (((x >> 56) & 0xff) as u8 as u64) << 56 == x)
        by (bit_vector);
}

/// Re-encoding the `u64` read from eight bytes recovers the bytes.
pub proof fn lemma_le_bytes_round_trip(b: Seq<u8>)
    requires
        b.len() == 8,
    ensures
        u64_le_bytes(u64_of_le(b)) =~= b,
{
    let b0 = b[0] as u64;
    let b1 = b[1] as u64;
    let b2 = b[2] as u64;
    let b3 = b[3] as u64;
    let b4 = b[4] as u64;
    let b5 = b[5] as u64;
    let b6 = b[6] as u64;
    let b7 = b[7] as u64;
    let x = u64_of_le(b);
    assert((x & 0xff) == b0 && ((x >> 8) & 0xff) == b1 && ((x >> 16) & 0xff) == b2 && ((x >> 24)
        & 0xff) == b3 && ((x >> 32) & 0xff) == b4 && ((x >> 40) & 0xff) == b5 && ((x >> 48) & 0xff)
        == b6 && ((x >> 56) & 0xff) == b7) by (bit_vector)
        requires
            x == b0 | (b1 << 8) | (b2 << 16) | (b3 << 24) | (b4 << 32) | (b5 << 40) | (b6 << 48) | (
            b7 << 56),
            b0 < 256 && b1 < 256 && b2 < 256 && b3 < 256,
            b4 < 256 && b5 < 256 && b6 < 256 && b7 < 256,
    ;
}

/// Casting an `i32` up to a `u64` and back recovers the value.
pub proof fn lemma_i32_u64_round_trip(y: i32)
    ensures
        ((y as u64) as i32) == y,
{
    assert(((y as u64) as i32) == y) by (bit_vector);
}

/// Appends the eight little-endian bytes of `x` to `out`.
pub fn push_u64_le(out: &mut Vec<u8>, x: u64)
    ensures
        final(out)@ == old(out)@ + u64_le_bytes(x),
{
    out.push((x & 0xff) as u8);
    out.push(((x >> 8) & 0xff) as u8);
    out.push(((x >> 16) & 0xff) as u8);
    out.push(((x >> 24) & 0xff) as u8);
    out.push(((x >> 32) & 0xff) as u8);
    out.push(((x >> 40) & 0xff) as u8);
    out.push(((x >> 48) & 0xff) as u8);
    out.push(((x >> 56) & 0xff) as u8);
    assert(out@ =~= old(out)@ + u64_le_bytes(x));
}

/// Reads the `u64` stored little-endian at `data[off..off + 8]`.
pub fn read_u64_le(data: &[u8], off: usize) -> (r: u64)
    requires
        off + 8 <= data@.len(),
    ensures
        r == u64_of_le(data@.subrange(off as int, off as int + 8)),
{
    let r = (data[off] as u64) | ((data[off + 1] as u64) << 8) | ((data[off + 2] as u64) << 16) | (
    (data[off + 3] as u64) << 24) | ((data[off + 4] as u64) << 32) | ((data[off + 5] as u64) << 40)
        | ((data[off + 6] as u64) << 48) | ((data[off + 7] as u64) << 56);
    proof {
        let s = data@.subrange(off as int, off as int + 8);
        assert(s[0] == data@[off as int]);
        assert(s[1] == data@[off as int + 1]);
        assert(s[2] == data@[off as int + 2]);
        assert(s[3] == data@[off as int + 3]);
        assert(s[4] == data@[off as int + 4]);
        assert(s[5] == data@[off as int + 5]);
        assert(s[6] == data@[off as int + 6]);
        assert(s[7] == data@[off as int + 7]);
    }
    r
}

} // verus!
