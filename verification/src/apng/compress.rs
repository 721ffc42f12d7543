//! zlib compression of the filtered scanline stream.

use vstd::prelude::*;
use std::io::Write;

verus! {

/// The zlib stream produced for `data` at the highest compression
/// setting: a function of the input bytes alone.
pub uninterp spec fn zlib_of(data: Seq<u8>) -> Seq<u8>;

/// Relies on `flate2::write::ZlibEncoder` with `Compression::best()`:
/// for the linked flate2 version the output depends only on the bytes
/// written in, and writing into a `Vec` sink cannot fail.
#[verifier::external_body]
pub(crate) fn compress(data: &[u8]) -> (r: Vec<u8>)
    ensures
        r@ == zlib_of(data@),
{
    let mut encoder = flate2::write::ZlibEncoder::new(Vec::new(), flate2::Compression::best());
    encoder.write_all(data).expect("a Vec sink cannot fail");
    encoder.finish().expect("a Vec sink cannot fail")
}

} // verus!
