//! The shared asset identity scheme: a policy identifier and an asset name,
//! both given as hex text, are decoded, hashed to 160 bits and wrapped in a
//! bech32 string under the prefix `asset`. Every projection uses this one
//! function, so equal inputs always yield equal identifiers.

use crate::codec::{hex_decode, is_hex_seq, hex_decode_seq};
use crate::text::chars_of;
use crate::EncodingError;
use bech32::ToBase32;
use blake2::digest::{Update, VariableOutput};
use vstd::prelude::*;

verus! {

/// What blake2's 20-byte variable-output digest returns for a byte sequence;
/// a function of those bytes alone.
pub uninterp spec fn blake2b_160_of(data: Seq<u8>) -> Seq<u8>;

/// What bech32's encoder returns for a data payload under the fixed
/// human-readable prefix `asset`; a function of the payload alone.
pub uninterp spec fn bech32_asset_of(data: Seq<u8>) -> Seq<char>;

/// Relies on blake2's `Blake2bVar` with an output size of 20: the digest is a
/// function of the input bytes alone, and fills exactly the 20-byte buffer.
#[verifier::external_body]
fn blake2b_160(data: &Vec<u8>) -> (r: Vec<u8>)
    ensures
        r@ == blake2b_160_of(data@),
        r@.len() == 20,
{
    let mut hasher = blake2::Blake2bVar::new(20).expect("20 bytes is a valid digest size");
    hasher.update(data.as_slice());
    let mut buf = [0u8; 20];
    hasher
        .finalize_variable(&mut buf)
        .expect("buffer length matches the digest size");
    buf.to_vec()
}

/// Relies on bech32's `encode` over the digest's base32 regrouping: the text
/// is a function of the data alone, and with the fixed well-formed prefix
/// `asset` the encoder accepts every payload.
#[verifier::external_body]
fn bech32_asset(digest: &Vec<u8>) -> (r: Result<String, EncodingError>)
    ensures
        r is Ok,
        r matches Ok(s) ==> s@ == bech32_asset_of(digest@),
{
    match bech32::encode("asset", digest.to_base32(), bech32::Variant::Bech32) {
        Ok(s) => Ok(s),
        Err(_) => Err(EncodingError::BadEncoding),
    }
}

/// The identifier owed for a policy and an asset name given as one spliced
/// hex string.
pub open spec fn fingerprint_chars(p: Seq<char>, n: Seq<char>) -> Seq<char> {
    bech32_asset_of(blake2b_160_of(hex_decode_seq(p + n)))
}

/// Derives the canonical textual identity of one native asset from the hex
/// text of its policy identifier and of its name. Succeeds exactly when the
/// two strings splice into valid hex; no placeholder is ever substituted for
/// a failed encoding.
pub fn asset_fingerprint(policy_hex: &str, asset_name_hex: &str) -> (r: Result<
    String,
    EncodingError,
>)
    ensures
        r is Ok <==> is_hex_seq(policy_hex@ + asset_name_hex@),
        r matches Ok(s) ==> s@ == fingerprint_chars(policy_hex@, asset_name_hex@),
        r matches Err(e) ==> e == EncodingError::BadHex,
{
    let mut combined = chars_of(policy_hex);
    let mut name_part = chars_of(asset_name_hex);
    combined.append(&mut name_part);
    match hex_decode(&combined) {
        None => Err(EncodingError::BadHex),
        Some(raw) => {
            let digest = blake2b_160(&raw);
            match bech32_asset(&digest) {
                Ok(s) => Ok(s),
                Err(e) => Err(e),
            }
        },
    }
}

/// The identity scheme is deterministic: equal policy and name hex always
/// yield the same identifier, in every unit that calls it.
pub proof fn lemma_fingerprint_deterministic(
    p1: Seq<char>,
    n1: Seq<char>,
    p2: Seq<char>,
    n2: Seq<char>,
)
    requires
        p1 == p2,
        n1 == n2,
    ensures
        fingerprint_chars(p1, n1) == fingerprint_chars(p2, n2),
{
}

} // verus!
