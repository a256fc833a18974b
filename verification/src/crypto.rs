//! Cryptographic primitives of the authentication exchange.
use base64::engine::general_purpose;
use base64::Engine;
use hmac::{Hmac, Mac};
use sha1::Sha1;
use sha2::{Digest, Sha256, Sha512};
use subtle::ConstantTimeEq;
use vstd::prelude::*;
use zeroize::Zeroize;

verus! {

/// Base64 text of bytes, standard alphabet, padded.
pub uninterp spec fn base64_text(bytes: Seq<u8>) -> Seq<char>;

/// Base64 text of bytes, standard alphabet, without padding.
pub uninterp spec fn base64_unpadded(bytes: Seq<u8>) -> Seq<char>;

/// Bytes of padded standard base64 text, or the rendered decoding error.
pub uninterp spec fn base64_bytes(text: Seq<char>) -> Result<Seq<u8>, Seq<char>>;

/// HMAC-SHA-1 tag.
pub uninterp spec fn hmac_sha1(key: Seq<u8>, data: Seq<u8>) -> Seq<u8>;

/// HMAC-SHA-256 tag.
pub uninterp spec fn hmac_sha256(key: Seq<u8>, data: Seq<u8>) -> Seq<u8>;

/// HMAC-SHA-512 tag.
pub uninterp spec fn hmac_sha512(key: Seq<u8>, data: Seq<u8>) -> Seq<u8>;

/// SHA-1 digest.
pub uninterp spec fn sha1_digest(data: Seq<u8>) -> Seq<u8>;

/// SHA-256 digest.
pub uninterp spec fn sha256_digest(data: Seq<u8>) -> Seq<u8>;

/// SHA-512 digest.
pub uninterp spec fn sha512_digest(data: Seq<u8>) -> Seq<u8>;

/// First 20 bytes of PBKDF2 with HMAC-SHA-1.
pub uninterp spec fn pbkdf2_sha1(password: Seq<u8>, salt: Seq<u8>, rounds: u32) -> Seq<u8>;

/// First 32 bytes of PBKDF2 with HMAC-SHA-256.
pub uninterp spec fn pbkdf2_sha256(password: Seq<u8>, salt: Seq<u8>, rounds: u32) -> Seq<u8>;

/// First 64 bytes of PBKDF2 with HMAC-SHA-512.
pub uninterp spec fn pbkdf2_sha512(password: Seq<u8>, salt: Seq<u8>, rounds: u32) -> Seq<u8>;

/// Encodes with `base64::Engine::encode` of the `STANDARD` engine; the same
/// engine decodes the text back to the bytes.
#[verifier::external_body]
pub(crate) fn encode_base64(bytes: &[u8]) -> (result: String)
    ensures
        result@ == base64_text(bytes@),
        base64_bytes(result@) is Ok && base64_bytes(result@)->Ok_0 == bytes@,
{
    general_purpose::STANDARD.encode(bytes)
}

/// Encodes with `base64::Engine::encode` of the `STANDARD_NO_PAD` engine.
#[verifier::external_body]
pub(crate) fn encode_base64_unpadded(bytes: &[u8]) -> (result: String)
    ensures
        result@ == base64_unpadded(bytes@),
{
    general_purpose::STANDARD_NO_PAD.encode(bytes)
}

/// Decodes with `base64::Engine::decode` of the `STANDARD` engine; a failure
/// is rendered. The result depends on the text alone.
#[verifier::external_body]
pub(crate) fn decode_base64(text: &str) -> (result: Result<Vec<u8>, String>)
    ensures
        match result {
            Ok(bytes) => base64_bytes(text@) == Ok::<Seq<u8>, Seq<char>>(bytes@),
            Err(e) => base64_bytes(text@) == Err::<Seq<u8>, Seq<char>>(e@),
        },
{
    match general_purpose::STANDARD.decode(text) {
        Ok(bytes) => Ok(bytes),
        Err(e) => Err(e.to_string()),
    }
}

/// Computes a tag with `hmac::Hmac<sha1::Sha1>`, which accepts keys of any
/// length; a tag has 20 bytes.
#[verifier::external_body]
pub(crate) fn tag_sha1(key: &[u8], data: &[u8]) -> (result: Vec<u8>)
    ensures
        result@ == hmac_sha1(key@, data@),
        result@.len() == 20,
{
    let mut mac = Hmac::<Sha1>::new_from_slice(key).expect("any key length is accepted");
    mac.update(data);
    mac.finalize().into_bytes().to_vec()
}

/// Computes a tag with `hmac::Hmac<sha2::Sha256>`, which accepts keys of any
/// length; a tag has 32 bytes.
#[verifier::external_body]
pub(crate) fn tag_sha256(key: &[u8], data: &[u8]) -> (result: Vec<u8>)
    ensures
        result@ == hmac_sha256(key@, data@),
        result@.len() == 32,
{
    let mut mac = Hmac::<Sha256>::new_from_slice(key).expect("any key length is accepted");
    mac.update(data);
    mac.finalize().into_bytes().to_vec()
}

/// Computes a tag with `hmac::Hmac<sha2::Sha512>`, which accepts keys of any
/// length; a tag has 64 bytes.
#[verifier::external_body]
pub(crate) fn tag_sha512(key: &[u8], data: &[u8]) -> (result: Vec<u8>)
    ensures
        result@ == hmac_sha512(key@, data@),
        result@.len() == 64,
{
    let mut mac = Hmac::<Sha512>::new_from_slice(key).expect("any key length is accepted");
    mac.update(data);
    mac.finalize().into_bytes().to_vec()
}

/// Hashes with `sha1::Sha1::digest`.
#[verifier::external_body]
pub(crate) fn hash_sha1(data: &[u8]) -> (result: Vec<u8>)
    ensures
        result@ == sha1_digest(data@),
{
    Sha1::digest(data).to_vec()
}

/// Hashes with `sha2::Sha256::digest`.
#[verifier::external_body]
pub(crate) fn hash_sha256(data: &[u8]) -> (result: Vec<u8>)
    ensures
        result@ == sha256_digest(data@),
{
    Sha256::digest(data).to_vec()
}

/// Hashes with `sha2::Sha512::digest`.
#[verifier::external_body]
pub(crate) fn hash_sha512(data: &[u8]) -> (result: Vec<u8>)
    ensures
        result@ == sha512_digest(data@),
{
    Sha512::digest(data).to_vec()
}

/// Derives 20 bytes with `pbkdf2::pbkdf2_hmac::<sha1::Sha1>`.
#[verifier::external_body]
pub(crate) fn derive_sha1(password: &[u8], salt: &[u8], rounds: u32) -> (result: Vec<u8>)
    ensures
        result@ == pbkdf2_sha1(password@, salt@, rounds),
{
    let mut derived = vec![0_u8; 20];
    pbkdf2::pbkdf2_hmac::<Sha1>(password, salt, rounds, &mut derived);
    derived
}

/// Derives 32 bytes with `pbkdf2::pbkdf2_hmac::<sha2::Sha256>`.
#[verifier::external_body]
pub(crate) fn derive_sha256(password: &[u8], salt: &[u8], rounds: u32) -> (result: Vec<u8>)
    ensures
        result@ == pbkdf2_sha256(password@, salt@, rounds),
{
    let mut derived = vec![0_u8; 32];
    pbkdf2::pbkdf2_hmac::<Sha256>(password, salt, rounds, &mut derived);
    derived
}

/// Derives 64 bytes with `pbkdf2::pbkdf2_hmac::<sha2::Sha512>`.
#[verifier::external_body]
pub(crate) fn derive_sha512(password: &[u8], salt: &[u8], rounds: u32) -> (result: Vec<u8>)
    ensures
        result@ == pbkdf2_sha512(password@, salt@, rounds),
{
    let mut derived = vec![0_u8; 64];
    pbkdf2::pbkdf2_hmac::<Sha512>(password, salt, rounds, &mut derived);
    derived
}

/// Compares with `subtle::ConstantTimeEq::ct_eq`: equal length and content.
#[verifier::external_body]
pub(crate) fn equal_in_constant_time(a: &[u8], b: &[u8]) -> (result: bool)
    ensures
        result == (a@ == b@),
{
    bool::from(a.ct_eq(b))
}

/// Erases bytes with `zeroize::Zeroize::zeroize`, which leaves the vector
/// empty and does not panic.
#[verifier::external_body]
pub(crate) fn wipe_bytes(bytes: &mut Vec<u8>)
    ensures
        final(bytes)@ == Seq::<u8>::empty(),
    opens_invariants none
    no_unwind
{
    bytes.zeroize()
}

/// Erases text with `zeroize::Zeroize::zeroize`, which leaves it empty and does
/// not panic.
#[verifier::external_body]
pub(crate) fn wipe_text(text: &mut String)
    ensures
        final(text)@ == Seq::<char>::empty(),
    opens_invariants none
    no_unwind
{
    text.zeroize()
}

/// Draws bytes with `getrandom::fill`; a failure is rendered. Nothing is
/// promised of the bytes but their number.
#[verifier::external_body]
pub(crate) fn random_bytes(count: usize) -> (result: Result<Vec<u8>, String>)
    ensures
        match result {
            Ok(bytes) => bytes@.len() == count,
            Err(_) => true,
        },
{
    let mut bytes = vec![0_u8; count];
    match getrandom::fill(&mut bytes) {
        Ok(()) => Ok(bytes),
        Err(e) => Err(e.to_string()),
    }
}

} // verus!
