use vstd::prelude::*;

use hex::FromHex;
use ed25519_dalek::Verifier;

use crate::binahbot::DiscordSecrets;
use crate::discord::DiscordInteractionMetadata;
use crate::text::{append_str, string_of};

verus! {

/// The value of a hexadecimal digit, either case; -1 for any other character.
pub open spec fn hex_value(c: char) -> int {
    if '0' <= c <= '9' {
        c as int - '0' as int
    } else if 'a' <= c <= 'f' {
        c as int - 'a' as int + 10
    } else if 'A' <= c <= 'F' {
        c as int - 'A' as int + 10
    } else {
        -1
    }
}

/// Whether `s` is exactly `n` bytes in hexadecimal: `2 * n` hexadecimal digits.
pub open spec fn is_hex_of_len(s: Seq<char>, n: nat) -> bool {
    s.len() == 2 * n && forall|i: int| 0 <= i < s.len() ==> hex_value(#[trigger] s[i]) >= 0
}

/// The `i`-th byte that the hexadecimal text `s` writes.
pub open spec fn hex_byte(s: Seq<char>, i: int) -> int {
    hex_value(s[2 * i]) * 16 + hex_value(s[2 * i + 1])
}

/// Calls `hex::FromHex::from_hex` for `[u8; 32]`. As the crate's source shows, it succeeds
/// exactly when the text is 64 hexadecimal digits of either case, and then byte `i` is
/// written by digits `2i` and `2i + 1`, the first the high one.
#[verifier::external_body]
fn hex_decode_32(s: &str) -> (r: Option<[u8; 32]>)
    ensures
        match r {
            Some(b) => is_hex_of_len(s@, 32) && forall|i: int| 0 <= i < 32 ==> #[trigger] b@[i] == hex_byte(s@, i),
            None => !is_hex_of_len(s@, 32),
        },
{
    <[u8; 32]>::from_hex(s).ok()
}

/// Calls `hex::FromHex::from_hex` for `[u8; 64]`; the contract is that of `hex_decode_32`
/// for 128 digits.
#[verifier::external_body]
fn hex_decode_64(s: &str) -> (r: Option<[u8; 64]>)
    ensures
        match r {
            Some(b) => is_hex_of_len(s@, 64) && forall|i: int| 0 <= i < 64 ==> #[trigger] b@[i] == hex_byte(s@, i),
            None => !is_hex_of_len(s@, 64),
        },
{
    <[u8; 64]>::from_hex(s).ok()
}

/// Whether `ed25519_dalek::VerifyingKey::from_bytes` accepts some bytes as a public key:
/// whether they decompress to a curve point.
pub uninterp spec fn ed25519_key_valid(key: Seq<u8>) -> bool;

/// What `ed25519_dalek`'s `Verifier::verify` answers for a public key, a message and a
/// signature: whether the signature is valid.
pub uninterp spec fn ed25519_signature_valid(key: Seq<u8>, message: Seq<u8>, signature: Seq<u8>) -> bool;

/// Whether `ed25519_dalek::VerifyingKey::from_bytes` makes a public key of `key`. The
/// contract says only that the answer is a function of the bytes, the one named
/// `ed25519_key_valid`; which bytes decompress to a curve point is not stated.
#[verifier::external_body]
fn ed25519_key_accepted(key: &[u8; 32]) -> (b: bool)
    ensures
        b == ed25519_key_valid(key@),
{
    ed25519_dalek::VerifyingKey::from_bytes(key).is_ok()
}

/// Makes a public key of `key` with `ed25519_dalek::VerifyingKey::from_bytes` and, where
/// that succeeds, checks `signature` on `message` with `Verifier::verify`, the signature
/// made by `ed25519::Signature::from_bytes`, which takes any 64 bytes. The contract says
/// only that each answer is a function of the bytes (named `ed25519_key_valid` and
/// `ed25519_signature_valid`); the curve arithmetic is not stated.
#[verifier::external_body]
fn ed25519_check(key: &[u8; 32], message: &[u8], signature: &[u8; 64]) -> (r: Option<bool>)
    ensures
        match r {
            Some(ok) => ed25519_key_valid(key@) && ok == ed25519_signature_valid(key@, message@, signature@),
            None => !ed25519_key_valid(key@),
        },
{
    match ed25519_dalek::VerifyingKey::from_bytes(key) {
        Ok(k) => Some(k.verify(message, &ed25519_dalek::Signature::from_bytes(signature)).is_ok()),
        Err(_) => None,
    }
}

/// Why a request was not shown to come from Discord.
#[derive(Debug, Clone, Copy, PartialEq, Eq, Structural)]
pub enum HeaderValidationError {
    PublicKeyNotHex,
    InvalidPublicKey,
    SignatureNotHex,
    BadSignature,
}

/// The bytes a request's signature is made over: the timestamp, then the body, in UTF-8.
pub open spec fn signed_message(timestamp: Seq<char>, body: Seq<char>) -> Seq<u8> {
    vstd::utf8::encode_utf8(timestamp + body)
}

/// The bytes a hexadecimal text writes.
pub open spec fn hex_bytes(s: Seq<char>, n: nat) -> Seq<u8> {
    Seq::new(n, |i: int| hex_byte(s, i) as u8)
}

/// What checking a request gives: the first of the public key's text, the key, the
/// signature's text and the signature that is not right, or success.
pub open spec fn validation_spec(public_key: Seq<char>, signature: Seq<char>, timestamp: Seq<char>, body: Seq<char>) -> Result<(), HeaderValidationError> {
    if !is_hex_of_len(public_key, 32) {
        Err(HeaderValidationError::PublicKeyNotHex)
    } else if !ed25519_key_valid(hex_bytes(public_key, 32)) {
        Err(HeaderValidationError::InvalidPublicKey)
    } else if !is_hex_of_len(signature, 64) {
        Err(HeaderValidationError::SignatureNotHex)
    } else if !ed25519_signature_valid(hex_bytes(public_key, 32), signed_message(timestamp, body), hex_bytes(signature, 64)) {
        Err(HeaderValidationError::BadSignature)
    } else {
        Ok(())
    }
}

/// Checks that a request comes from Discord: its signature of the timestamp and body must
/// verify under the application's public key.
pub fn validate_headers(discord_secrets: &DiscordSecrets, metadata: &DiscordInteractionMetadata) -> (r: Result<(), HeaderValidationError>)
    ensures
        r == validation_spec(discord_secrets.public_key@, metadata.signature@, metadata.timestamp@, metadata.json_body@),
{
    let key = match hex_decode_32(discord_secrets.public_key.as_str()) {
        Some(k) => k,
        None => return Err(HeaderValidationError::PublicKeyNotHex),
    };
    assert(key@ =~= hex_bytes(discord_secrets.public_key@, 32));
    if !ed25519_key_accepted(&key) {
        return Err(HeaderValidationError::InvalidPublicKey);
    }
    let sig = match hex_decode_64(metadata.signature.as_str()) {
        Some(s) => s,
        None => return Err(HeaderValidationError::SignatureNotHex),
    };
    assert(sig@ =~= hex_bytes(metadata.signature@, 64));
    let mut message: Vec<char> = Vec::new();
    append_str(&mut message, metadata.timestamp.as_str());
    append_str(&mut message, metadata.json_body.as_str());
    let concatenated = string_of(&message);
    match ed25519_check(&key, concatenated.as_str().as_bytes(), &sig) {
        Some(true) => Ok(()),
        Some(false) => Err(HeaderValidationError::BadSignature),
        None => Err(HeaderValidationError::InvalidPublicKey),
    }
}

} // verus!
