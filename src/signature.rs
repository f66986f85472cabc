use vstd::prelude::*;
use ed25519_dalek::Verifier;

verus! {

/// Whether Ed25519 accepts `signature` over the UTF-8 encoding of `message`
/// under the public key `key`.
pub uninterp spec fn ed25519_accepts(key: Seq<u8>, message: Seq<char>, signature: Seq<u8>) -> bool;

/// The encoding rule that ed25519 applies when it parses a signature: exactly
/// 64 bytes, and the three top bits of the last byte clear.
pub open spec fn signature_encoding_ok(signature: Seq<u8>) -> bool {
    signature.len() == 64 && signature[63] < 32
}

/// Relies on ed25519_dalek 1.0: `PublicKey::from_bytes` decodes the key,
/// `Signature::try_from` parses the signature (failing unless
/// `signature_encoding_ok`), and `PublicKey::verify` checks it over the
/// message bytes. The outcome is a function of the three values alone.
#[verifier::external_body]
fn ed25519_verify(key: &[u8], message: &str, signature: &[u8]) -> (r: bool)
    ensures
        r == ed25519_accepts(key@, message@, signature@),
        r ==> signature_encoding_ok(signature@),
{
    match (ed25519_dalek::PublicKey::from_bytes(key), ed25519_dalek::Signature::try_from(signature)) {
        (Ok(k), Ok(s)) => k.verify(message.as_bytes(), &s).is_ok(),
        _ => false,
    }
}

/// Whether `signature` is a well-formed Ed25519 signature encoding.
pub fn signature_well_formed(signature: &[u8]) -> (r: bool)
    ensures
        r == signature_encoding_ok(signature@),
{
    signature.len() == 64 && signature[63] < 32
}

/// Outcome of checking a signed request against the authority key.
#[derive(PartialEq, Eq, Debug, Clone, Copy, Structural)]
pub enum SignatureCheck {
    Valid,
    Malformed,
    Invalid,
}

/// Checks `signature` over `message` under `key`: a signature that is not a
/// well-formed encoding is `Malformed`; a well-formed one is `Valid` exactly
/// when Ed25519 accepts it.
pub fn check_signature(key: &[u8], message: &str, signature: &[u8]) -> (r: SignatureCheck)
    ensures
        r == signature_verdict(key@, message@, signature@),
{
    if !signature_well_formed(signature) {
        SignatureCheck::Malformed
    } else if ed25519_verify(key, message, signature) {
        SignatureCheck::Valid
    } else {
        SignatureCheck::Invalid
    }
}

/// What `check_signature` decides.
pub open spec fn signature_verdict(key: Seq<u8>, message: Seq<char>, signature: Seq<u8>) -> SignatureCheck {
    if !signature_encoding_ok(signature) {
        SignatureCheck::Malformed
    } else if ed25519_accepts(key, message, signature) {
        SignatureCheck::Valid
    } else {
        SignatureCheck::Invalid
    }
}

} // verus!
