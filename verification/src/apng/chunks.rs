//! Chunk framing: every PNG chunk is `length || type || data || CRC-32`,
//! with all integers big-endian and the CRC taken over `type || data`.

use vstd::prelude::*;

verus! {

/// PNG image header fields as laid out in the 13-byte `IHDR` payload.
pub struct IHDR {
    pub width: u32,
    pub height: u32,
    pub bit_depth: u8,
    pub color_type: u8,
    pub compression_method: u8,
    pub filter_method: u8,
    pub interlace_method: u8,
}

/// The four bytes of `x`, most significant first.
pub open spec fn be32(x: u32) -> Seq<u8> {
    seq![
        ((x >> 24) & 0xff) as u8,
        ((x >> 16) & 0xff) as u8,
        ((x >> 8) & 0xff) as u8,
        (x & 0xff) as u8,
    ]
}

/// The two bytes of `x`, most significant first.
pub open spec fn be16(x: u16) -> Seq<u8> {
    seq![((x >> 8) & 0xff) as u8, (x & 0xff) as u8]
}

/// The CRC-32 used by PNG (ISO-3309 polynomial, reflected, initial and
/// final value `0xFFFFFFFF`) over `data`.
pub uninterp spec fn crc32_of(data: Seq<u8>) -> u32;

/// Relies on `flate2::Crc`: `sum` returns the CRC-32 of exactly the bytes
/// fed to `update`, a function of those bytes alone.
#[verifier::external_body]
pub(crate) fn crc32(data: &[u8]) -> (r: u32)
    ensures
        r == crc32_of(data@),
{
    let mut crc = flate2::Crc::new();
    crc.update(data);
    crc.sum()
}

/// A whole chunk: payload length, type, payload, CRC of `type || data`.
pub open spec fn chunk_bytes(ctype: Seq<u8>, data: Seq<u8>) -> Seq<u8>
    recommends
        ctype.len() == 4,
        data.len() <= 0xffff_ffff,
{
    be32(data.len() as u32) + ctype + data + be32(crc32_of(ctype + data))
}

/// Appends the four bytes of `x` to `out`, most significant first.
pub(crate) fn push_be32(out: &mut Vec<u8>, x: u32)
    ensures
        final(out)@ == old(out)@ + be32(x),
{
    out.push(((x >> 24) & 0xff) as u8);
    out.push(((x >> 16) & 0xff) as u8);
    out.push(((x >> 8) & 0xff) as u8);
    out.push((x & 0xff) as u8);
    proof {
        assert(out@ =~= old(out)@ + be32(x));
    }
}

/// Appends the two bytes of `x` to `out`, most significant first.
pub(crate) fn push_be16(out: &mut Vec<u8>, x: u16)
    ensures
        final(out)@ == old(out)@ + be16(x),
{
    out.push(((x >> 8) & 0xff) as u8);
    out.push((x & 0xff) as u8);
    proof {
        assert(out@ =~= old(out)@ + be16(x));
    }
}

/// Appends every byte of `src` to `out`.
pub(crate) fn push_bytes(out: &mut Vec<u8>, src: &[u8])
    ensures
        final(out)@ == old(out)@ + src@,
{
    let mut i: usize = 0;
    while i < src.len()
        invariant
            i <= src@.len(),
            out@ == old(out)@ + src@.subrange(0, i as int),
        decreases src@.len() - i,
    {
        out.push(src[i]);
        i = i + 1;
        proof {
            assert(out@ =~= old(out)@ + src@.subrange(0, i as int));
        }
    }
    proof {
        assert(src@.subrange(0, src@.len() as int) =~= src@);
    }
}

/// Appends one whole chunk of the given type and payload to `out`.
pub(crate) fn append_chunk(out: &mut Vec<u8>, ctype: [u8; 4], data: &[u8])
    requires
        data@.len() <= 0xffff_ffff,
    ensures
        final(out)@ == old(out)@ + chunk_bytes(ctype@, data@),
{
    push_be32(out, data.len() as u32);
    out.push(ctype[0]);
    out.push(ctype[1]);
    out.push(ctype[2]);
    out.push(ctype[3]);
    push_bytes(out, data);
    let mut type_and_data: Vec<u8> = Vec::new();
    type_and_data.push(ctype[0]);
    type_and_data.push(ctype[1]);
    type_and_data.push(ctype[2]);
    type_and_data.push(ctype[3]);
    push_bytes(&mut type_and_data, data);
    proof {
        assert(type_and_data@ =~= ctype@ + data@);
    }
    let crc = crc32(type_and_data.as_slice());
    push_be32(out, crc);
    proof {
        assert(out@ =~= old(out)@ + chunk_bytes(ctype@, data@));
    }
}

/// CRC correctness: a framed chunk carries, as its last four bytes, the
/// big-endian CRC-32 of its type and data fields, after the length, the
/// type and the data themselves.
pub proof fn lemma_chunk_crc(ctype: Seq<u8>, data: Seq<u8>)
    requires
        ctype.len() == 4,
        data.len() <= 0xffff_ffff,
    ensures
        chunk_bytes(ctype, data).len() == data.len() + 12,
        chunk_bytes(ctype, data).subrange(0, 4) =~= be32(data.len() as u32),
        chunk_bytes(ctype, data).subrange(4, 8) =~= ctype,
        chunk_bytes(ctype, data).subrange(8, data.len() + 8 as int) =~= data,
        chunk_bytes(ctype, data).subrange(data.len() + 8 as int, data.len() + 12 as int)
            =~= be32(crc32_of(ctype + data)),
{
}

} // verus!
