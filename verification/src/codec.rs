use vstd::prelude::*;
use crate::errors::{ServiceError, bad_request, fails_bad_request};
use base64::Engine;
use vstd::string::StringSliceAdditionalSpecFns;

verus! {

/// Bytes that the `base64` crate's `STANDARD` engine (standard alphabet,
/// padding required) decodes from `input`, or `None` where it refuses it.
pub uninterp spec fn base64_standard_decoded(input: Seq<u8>) -> Option<Seq<u8>>;

/// Bytes that the `base64` crate's engine with the URL-safe alphabet and no
/// padding decodes from `input`, or `None` where it refuses it.
pub uninterp spec fn base64_url_safe_no_pad_decoded(input: Seq<u8>) -> Option<Seq<u8>>;

/// `Engine::decode` of `base64::prelude::BASE64_STANDARD` on `input`.
#[verifier::external_body]
fn decode_standard(input: &[u8]) -> (r: Option<Vec<u8>>)
    ensures
        match r {
            Some(v) => base64_standard_decoded(input@) == Some(v@),
            None => base64_standard_decoded(input@) is None,
        },
{
    base64::prelude::BASE64_STANDARD.decode(input).ok()
}

/// `Engine::decode` of the engine built from `alphabet::URL_SAFE` and
/// `general_purpose::NO_PAD` on `input`.
#[verifier::external_body]
fn decode_url_safe_no_pad(input: &[u8]) -> (r: Option<Vec<u8>>)
    ensures
        match r {
            Some(v) => base64_url_safe_no_pad_decoded(input@) == Some(v@),
            None => base64_url_safe_no_pad_decoded(input@) is None,
        },
{
    let engine = base64::engine::GeneralPurpose::new(
        &base64::alphabet::URL_SAFE,
        base64::engine::general_purpose::NO_PAD,
    );
    engine.decode(input).ok()
}

/// Bytes of an image given in standard base64; text that does not decode is
/// refused with `Invalid base64 string`.
pub fn decode_base64_image(data: &str) -> (r: Result<Vec<u8>, ServiceError>)
    ensures
        base64_standard_decoded(data.spec_bytes()) matches Some(b) ==> (r matches Ok(v) && v@ == b),
        base64_standard_decoded(data.spec_bytes()) is None ==> fails_bad_request(r, "Invalid base64 string"@),
{
    match decode_standard(data.as_bytes()) {
        Some(v) => Ok(v),
        None => Err(bad_request("Invalid base64 string")),
    }
}

/// Bytes of an uploaded file: read as URL-safe base64 without padding, and
/// where that fails as standard base64; when neither reads it the upload is
/// refused with `Could not decode base64 file`.
pub fn decode_uploaded_file(data: &str) -> (r: Result<Vec<u8>, ServiceError>)
    ensures
        base64_url_safe_no_pad_decoded(data.spec_bytes()) matches Some(b) ==> (r matches Ok(v) && v@ == b),
        base64_url_safe_no_pad_decoded(data.spec_bytes()) is None ==> match base64_standard_decoded(data.spec_bytes()) {
            Some(b) => r matches Ok(v) && v@ == b,
            None => fails_bad_request(r, "Could not decode base64 file"@),
        },
{
    match decode_url_safe_no_pad(data.as_bytes()) {
        Some(v) => Ok(v),
        None => match decode_standard(data.as_bytes()) {
            Some(v) => Ok(v),
            None => Err(bad_request("Could not decode base64 file")),
        },
    }
}

} // verus!
