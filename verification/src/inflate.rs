//! Inflation of the compressed image data, which is left to `flate2`.

use flate2::read::ZlibDecoder;
use std::io::Read;
use vstd::prelude::*;

verus! {

/// What a zlib stream inflates to, or `None` if the bytes are no complete
/// and intact zlib stream.
pub uninterp spec fn zlib_inflated(compressed: Seq<u8>) -> Option<Seq<u8>>;

/// Inflates a zlib stream with `flate2::read::ZlibDecoder`, read to its end
/// with `read_to_end`. Nothing is proved of the decoder: the contract only
/// gives its result a name, the bytes read where it reports success and
/// `None` where it reports an error.
#[verifier::external_body]
pub(crate) fn inflate(compressed: &[u8]) -> (data: Option<Vec<u8>>)
    ensures
        zlib_inflated(compressed@) == match data {
            Some(v) => Some(v@),
            None => None::<Seq<u8>>,
        },
{
    let mut data: Vec<u8> = Vec::new();
    match ZlibDecoder::new(compressed).read_to_end(&mut data) {
        Ok(_) => Some(data),
        Err(_) => None,
    }
}

} // verus!
