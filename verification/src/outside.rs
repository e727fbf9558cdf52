//! The crate's bridge to outside computation: the SHA-256 digest behind the
//! certificate fingerprint, and base64 decoding of pointer images. Each call
//! sits behind one trusted wrapper whose result is named; everything done
//! with the results is verified.
use vstd::prelude::*;
use base64::Engine;
use sha2::Digest;
use crate::fmt::hex_fingerprint;
use crate::fmt::fingerprint_string;

verus! {

/// The SHA-256 digest of a byte string: a function of the bytes alone.
pub uninterp spec fn sha256_of(data: Seq<u8>) -> Seq<u8>;

/// Relies on sha2's `Sha256`: one `update` over all the bytes and
/// `finalize` yield the 32-byte SHA-256 digest of the input, a function of
/// the input alone.
#[verifier::external_body]
fn sha256_digest(data: &Vec<u8>) -> (r: Vec<u8>)
    ensures
        r@ == sha256_of(data@),
        r@.len() == 32,
{
    let mut hasher = sha2::Sha256::new();
    hasher.update(data.as_slice());
    let out = hasher.finalize();
    out.as_slice().to_vec()
}

/// What a base64 decode of this text yields: the decoded bytes, or nothing
/// where the text is not valid standard base64. A function of the text
/// alone.
pub uninterp spec fn base64_decode_of(text: Seq<char>) -> Option<Seq<u8>>;

/// Relies on base64's standard engine: `decode` yields the decoded bytes of
/// valid standard base64 and an error otherwise, a function of the input
/// alone.
#[verifier::external_body]
fn base64_decode(text: &str) -> (r: Option<Vec<u8>>)
    ensures
        r matches Some(v) ==> (base64_decode_of(text@) matches Some(b) && v@ == b),
        r is None ==> base64_decode_of(text@) is None,
{
    match base64::engine::general_purpose::STANDARD.decode(text) {
        Ok(v) => Some(v),
        Err(_) => None,
    }
}

/// The fingerprint of a certificate: the colon-separated upper-case hex of
/// its SHA-256 digest.
pub open spec fn fingerprint_of(cert_der: Seq<u8>) -> Seq<char> {
    hex_fingerprint(sha256_of(cert_der))
}

/// Computes the pinning fingerprint clients verify: SHA-256 over the DER
/// certificate, formatted as colon-separated upper-case hex. Thirty-two
/// digest bytes make ninety-five characters.
pub fn certificate_fingerprint(cert_der: &Vec<u8>) -> (r: String)
    ensures
        r@ == fingerprint_of(cert_der@),
        r@.len() == 95,
{
    let digest = sha256_digest(cert_der);
    proof {
        crate::fmt::lemma_hex_fingerprint_len(digest@);
    }
    fingerprint_string(&digest)
}

/// What becomes of an inbound pointer image: cleared, replaced, or refused.
pub enum PointerImageAction {
    /// Empty payload: remove the shared image.
    Clear,
    /// Valid base64 within the size bound: these bytes replace the image.
    Replace(Vec<u8>),
    /// Not base64, or past the size bound: nothing happens.
    Refuse,
}

/// Hard cap on a decoded pointer image: one mebibyte.
pub const MAX_POINTER_IMAGE_LEN: usize = 1048576;

/// Decides what an inbound pointer-image message does: empty text clears
/// the image; text that decodes as base64 to at most a mebibyte replaces
/// it; anything else is refused.
pub fn pointer_image_action(data: &str) -> (r: PointerImageAction)
    ensures
        data@.len() == 0 ==> r is Clear,
        data@.len() > 0 && (base64_decode_of(data@) matches Some(b) && b.len()
            <= MAX_POINTER_IMAGE_LEN) ==> (r matches PointerImageAction::Replace(v) && v@
            == base64_decode_of(data@)->Some_0),
        data@.len() > 0 && (base64_decode_of(data@) matches Some(b) && b.len()
            > MAX_POINTER_IMAGE_LEN) ==> r is Refuse,
        data@.len() > 0 && base64_decode_of(data@) is None ==> r is Refuse,
    {
    if data.unicode_len() == 0 {
        return PointerImageAction::Clear;
    }
    match base64_decode(data) {
        Some(bytes) => {
            if bytes.len() > MAX_POINTER_IMAGE_LEN {
                PointerImageAction::Refuse
            } else {
                PointerImageAction::Replace(bytes)
            }
        },
        None => PointerImageAction::Refuse,
    }
}

} // verus!
