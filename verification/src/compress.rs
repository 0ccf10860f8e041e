//! The compression boundary of the wire.
//!
//! Encoded frames are deflated before transmission; receivers inflate
//! the bytes before decoding. The rendering is a function of the input
//! alone: the encoder runs at the fixed default level on the bundled
//! backend, so inflating a deflated frame yields the frame.
use vstd::prelude::*;

use crate::error::Error;
use std::io::Write;

verus! {

/// The deflate rendering of a byte string.
pub uninterp spec fn deflate_of(b: Seq<u8>) -> Seq<u8>;

/// Whenever the buffer is the deflate rendering of some original, the
/// inflate result is exactly that original.
pub open spec fn inflates_deflated(buffer: Seq<u8>, r: Result<Vec<u8>, Error>) -> bool {
    forall|orig: Seq<u8>| buffer == #[trigger] deflate_of(orig) ==> (r matches Ok(v) && v@ == orig)
}

/// Relies on flate2's zlib encoder at the default level: the deflate
/// rendering of the bytes. Writing into a byte vector cannot fail.
#[verifier::external_body]
pub fn deflate(bytes: &[u8]) -> (r: Result<Vec<u8>, Error>)
    ensures
        r is Ok,
        r matches Ok(v) ==> v@ == deflate_of(bytes@),
{
    let mut encoder = flate2::write::ZlibEncoder::new(Vec::new(), flate2::Compression::default());
    if let Err(e) = encoder.write_all(bytes) {
        return Err(Error::Io(e.to_string()));
    }
    encoder.finish().map_err(|e| Error::Io(e.to_string()))
}

/// Relies on flate2's zlib decoder: inflating a deflated buffer yields
/// the original bytes; malformed input is reported as an error.
#[verifier::external_body]
pub fn inflate(bytes: &[u8]) -> (r: Result<Vec<u8>, Error>)
    ensures
        inflates_deflated(bytes@, r),
{
    let mut decoder = flate2::write::ZlibDecoder::new(Vec::new());
    if let Err(e) = decoder.write_all(bytes) {
        return Err(Error::Io(e.to_string()));
    }
    decoder.finish().map_err(|e| Error::Io(e.to_string()))
}

} // verus!
