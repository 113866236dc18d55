//! Inflation of a deflate-compressed payload, by `miniz_oxide`.

use vstd::prelude::*;

verus! {

/// `miniz_oxide::inflate::DecompressError`, what a failed inflation returns.
#[verifier::external_type_specification]
#[verifier::external_body]
pub struct ExDecompressError(miniz_oxide::inflate::DecompressError);

/// What a zlib stream inflates to; `None` where the bytes are no complete,
/// valid zlib stream.
pub uninterp spec fn zlib_inflated(data: Seq<u8>) -> Option<Seq<u8>>;

/// `miniz_oxide::inflate::decompress_to_vec_zlib` returns the inflated bytes
/// of a valid zlib stream and fails on every other input. Nothing is proved
/// of it: the result is only given its name.
pub assume_specification[ miniz_oxide::inflate::decompress_to_vec_zlib ](
    input: &[u8],
) -> (r: Result<Vec<u8>, miniz_oxide::inflate::DecompressError>)
    ensures
        match zlib_inflated(input@) {
            Some(data) => r matches Ok(bytes) && bytes@ == data,
            None => r is Err,
        },
;

/// Inflates a zlib stream.
pub fn inflate_bytes(data: &[u8]) -> (r: Option<Vec<u8>>)
    ensures
        match zlib_inflated(data@) {
            Some(inflated) => r matches Some(bytes) && bytes@ == inflated,
            None => r is None,
        },
{
    match miniz_oxide::inflate::decompress_to_vec_zlib(data) {
        Ok(bytes) => Some(bytes),
        Err(_) => None,
    }
}

} // verus!
