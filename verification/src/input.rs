//! The input file: a VGM file, or a VGZ file (the same, gzip-compressed).

use vstd::prelude::*;

verus! {

/// What gzip decompression of `data` gives: the decompressed bytes of its
/// first gzip member, or `None` when `data` is not a complete, valid one.
pub uninterp spec fn gunzip(data: Seq<u8>) -> Option<Seq<u8>>;

/// `data` starts with the gzip magic bytes `1f 8b`.
pub open spec fn is_gzip(data: Seq<u8>) -> bool {
    data.len() >= 2 && data[0] == 0x1f && data[1] == 0x8b
}

/// Reads all of `flate2::read::GzDecoder::new(data)` with `read_to_end`:
/// the decompressed bytes, named `gunzip(data)`, or the decoder's error as
/// text (which text is left unsaid).
#[verifier::external_body]
fn gzip_decode(data: &[u8]) -> (r: Result<Vec<u8>, String>)
    ensures
        r is Ok <==> gunzip(data@) is Some,
        r matches Ok(v) ==> gunzip(data@) == Some(v@),
{
    let mut decoder = flate2::read::GzDecoder::new(data);
    let mut out = Vec::new();
    match std::io::Read::read_to_end(&mut decoder, &mut out) {
        Ok(_) => Ok(out),
        Err(e) => Err(e.to_string()),
    }
}

/// The VGM bytes of an input file: decompressed when it is gzip (an error
/// carrying the decoder's message when that fails), else the input itself.
pub fn decode_input(input: Vec<u8>) -> (r: Result<Vec<u8>, String>)
    ensures
        is_gzip(input@) ==> (r is Ok <==> gunzip(input@) is Some),
        is_gzip(input@) ==> (r matches Ok(v) ==> gunzip(input@) == Some(v@)),
        !is_gzip(input@) ==> (r matches Ok(v) && v@ == input@),
{
    if input.len() >= 2 && input[0] == 0x1f && input[1] == 0x8b {
        gzip_decode(input.as_slice())
    } else {
        Ok(input)
    }
}

} // verus!
