//! Big-endian integer layout, shared by the tag-struct and frame codecs.
//! All multi-byte integers on the wire are big-endian.

use vstd::prelude::*;

verus! {

/// The four bytes of a 32-bit integer in big-endian order.
pub open spec fn be32(x: u32) -> Seq<u8> {
    seq![
        ((x >> 24) & 0xFF) as u8,
        ((x >> 16) & 0xFF) as u8,
        ((x >> 8) & 0xFF) as u8,
        (x & 0xFF) as u8,
    ]
}

/// The 32-bit integer denoted by four bytes in big-endian order.
pub open spec fn be32_val(b: Seq<u8>) -> u32
    recommends
        b.len() == 4,
{
    ((b[0] as u32) << 24) | ((b[1] as u32) << 16) | ((b[2] as u32) << 8) | (b[3] as u32)
}

/// The eight bytes of a 64-bit integer in big-endian order.
pub open spec fn be64(x: u64) -> Seq<u8> {
    seq![
        ((x >> 56) & 0xFF) as u8,
        ((x >> 48) & 0xFF) as u8,
        ((x >> 40) & 0xFF) as u8,
        ((x >> 32) & 0xFF) as u8,
        ((x >> 24) & 0xFF) as u8,
        ((x >> 16) & 0xFF) as u8,
        ((x >> 8) & 0xFF) as u8,
        (x & 0xFF) as u8,
    ]
}

/// The 64-bit integer denoted by eight bytes in big-endian order.
pub open spec fn be64_val(b: Seq<u8>) -> u64
    recommends
        b.len() == 8,
{
    ((b[0] as u64) << 56) | ((b[1] as u64) << 48) | ((b[2] as u64) << 40) | ((b[3] as u64) << 32)
        | ((b[4] as u64) << 24) | ((b[5] as u64) << 16) | ((b[6] as u64) << 8) | (b[7] as u64)
}

pub proof fn lemma_be32_val_of_be32(x: u32)
    ensures
        be32(x).len() == 4,
        be32_val(be32(x)) == x,
{
    assert((((((x >> 24) & 0xFF) as u8) as u32) << 24) | (((((x >> 16) & 0xFF) as u8) as u32)
        << 16) | (((((x >> 8) & 0xFF) as u8) as u32) << 8) | (((x & 0xFF) as u8) as u32) == x)
        by (bit_vector);
}

pub proof fn lemma_be32_of_be32_val(b: Seq<u8>)
    requires
        b.len() == 4,
    ensures
        be32(be32_val(b)) == b,
{
    let b0 = b[0];
    let b1 = b[1];
    let b2 = b[2];
    let b3 = b[3];
    let x = be32_val(b);
    assert(x == ((b0 as u32) << 24) | ((b1 as u32) << 16) | ((b2 as u32) << 8) | (b3 as u32));
    assert({
        let x = ((b0 as u32) << 24) | ((b1 as u32) << 16) | ((b2 as u32) << 8) | (b3 as u32);
        &&& ((x >> 24) & 0xFF) as u8 == b0
        &&& ((x >> 16) & 0xFF) as u8 == b1
        &&& ((x >> 8) & 0xFF) as u8 == b2
        &&& (x & 0xFF) as u8 == b3
    }) by (bit_vector);
    assert(be32(x) =~= b);
}

/// Distinct 32-bit integers have distinct big-endian layouts.
pub proof fn lemma_be32_injective(x: u32, y: u32)
    requires
        be32(x) == be32(y),
    ensures
        x == y,
{
    lemma_be32_val_of_be32(x);
    lemma_be32_val_of_be32(y);
}

pub proof fn lemma_be64_val_of_be64(x: u64)
    ensures
        be64(x).len() == 8,
        be64_val(be64(x)) == x,
{
    assert((((((x >> 56) & 0xFF) as u8) as u64) << 56) | (((((x >> 48) & 0xFF) as u8) as u64)
        << 48) | (((((x >> 40) & 0xFF) as u8) as u64) << 40) | (((((x >> 32) & 0xFF) as u8) as u64)
        << 32) | (((((x >> 24) & 0xFF) as u8) as u64) << 24) | (((((x >> 16) & 0xFF) as u8) as u64)
        << 16) | (((((x >> 8) & 0xFF) as u8) as u64) << 8) | (((x & 0xFF) as u8) as u64) == x)
        by (bit_vector);
}

pub proof fn lemma_be64_injective(x: u64, y: u64)
    requires
        be64(x) == be64(y),
    ensures
        x == y,
{
    lemma_be64_val_of_be64(x);
    lemma_be64_val_of_be64(y);
}

/// Reads the big-endian 32-bit integer stored at `pos`.
pub fn read_be_u32(bytes: &[u8], pos: usize) -> (x: u32)
    requires
        pos + 4 <= bytes@.len(),
    ensures
        x == be32_val(bytes@.subrange(pos as int, pos as int + 4)),
        be32(x) == bytes@.subrange(pos as int, pos as int + 4),
{
    let _n = bytes.len();
    let b0 = *vstd::slice::slice_index_get(bytes, pos);
    let b1 = *vstd::slice::slice_index_get(bytes, pos + 1);
    let b2 = *vstd::slice::slice_index_get(bytes, pos + 2);
    let b3 = *vstd::slice::slice_index_get(bytes, pos + 3);
    let x = ((b0 as u32) << 24) | ((b1 as u32) << 16) | ((b2 as u32) << 8) | (b3 as u32);
    proof {
        let b = bytes@.subrange(pos as int, pos as int + 4);
        assert(b.len() == 4 && b[0] == b0 && b[1] == b1 && b[2] == b2 && b[3] == b3);
        lemma_be32_of_be32_val(b);
    }
    x
}

/// Reads the big-endian 64-bit integer stored at `pos`.
pub fn read_be_u64(bytes: &[u8], pos: usize) -> (x: u64)
    requires
        pos + 8 <= bytes@.len(),
    ensures
        x == be64_val(bytes@.subrange(pos as int, pos as int + 8)),
        be64(x) == bytes@.subrange(pos as int, pos as int + 8),
{
    let _n = bytes.len();
    let b0 = *vstd::slice::slice_index_get(bytes, pos);
    let b1 = *vstd::slice::slice_index_get(bytes, pos + 1);
    let b2 = *vstd::slice::slice_index_get(bytes, pos + 2);
    let b3 = *vstd::slice::slice_index_get(bytes, pos + 3);
    let b4 = *vstd::slice::slice_index_get(bytes, pos + 4);
    let b5 = *vstd::slice::slice_index_get(bytes, pos + 5);
    let b6 = *vstd::slice::slice_index_get(bytes, pos + 6);
    let b7 = *vstd::slice::slice_index_get(bytes, pos + 7);
    let x = ((b0 as u64) << 56) | ((b1 as u64) << 48) | ((b2 as u64) << 40) | ((b3 as u64) << 32)
        | ((b4 as u64) << 24) | ((b5 as u64) << 16) | ((b6 as u64) << 8) | (b7 as u64);
    proof {
        let b = bytes@.subrange(pos as int, pos as int + 8);
        assert(b.len() == 8 && b[0] == b0 && b[1] == b1 && b[2] == b2 && b[3] == b3 && b[4] == b4
            && b[5] == b5 && b[6] == b6 && b[7] == b7);
        let x0 = be64_val(b);
        assert({
            let x = ((b0 as u64) << 56) | ((b1 as u64) << 48) | ((b2 as u64) << 40) | ((b3 as u64)
                << 32) | ((b4 as u64) << 24) | ((b5 as u64) << 16) | ((b6 as u64) << 8) | (
            b7 as u64);
            &&& ((x >> 56) & 0xFF) as u8 == b0
            &&& ((x >> 48) & 0xFF) as u8 == b1
            &&& ((x >> 40) & 0xFF) as u8 == b2
            &&& ((x >> 32) & 0xFF) as u8 == b3
            &&& ((x >> 24) & 0xFF) as u8 == b4
            &&& ((x >> 16) & 0xFF) as u8 == b5
            &&& ((x >> 8) & 0xFF) as u8 == b6
            &&& (x & 0xFF) as u8 == b7
        }) by (bit_vector);
        assert(be64(x0) =~= b);
    }
    x
}

/// Appends the big-endian layout of a 32-bit integer.
pub fn write_be_u32(out: &mut Vec<u8>, x: u32)
    ensures
        final(out)@ == old(out)@ + be32(x),
{
    out.push(((x >> 24) & 0xFF) as u8);
    out.push(((x >> 16) & 0xFF) as u8);
    out.push(((x >> 8) & 0xFF) as u8);
    out.push((x & 0xFF) as u8);
    proof {
        assert(out@ =~= old(out)@ + be32(x));
    }
}

/// Appends the big-endian layout of a 64-bit integer.
pub fn write_be_u64(out: &mut Vec<u8>, x: u64)
    ensures
        final(out)@ == old(out)@ + be64(x),
{
    out.push(((x >> 56) & 0xFF) as u8);
    out.push(((x >> 48) & 0xFF) as u8);
    out.push(((x >> 40) & 0xFF) as u8);
    out.push(((x >> 32) & 0xFF) as u8);
    out.push(((x >> 24) & 0xFF) as u8);
    out.push(((x >> 16) & 0xFF) as u8);
    out.push(((x >> 8) & 0xFF) as u8);
    out.push((x & 0xFF) as u8);
    proof {
        assert(out@ =~= old(out)@ + be64(x));
    }
}

} // verus!
