//! Recovery of a transaction's signer through the outside cryptography:
//! each trusted item below names the result of one outside computation.

use vstd::prelude::*;
use alloy_consensus::TxEnvelope;
use alloy_eips::eip2718::Decodable2718;
use alloy_primitives::{Address, Signature, B256};

verus! {

/// The signing hash (32 bytes) and the raw signature (65 bytes: `r`, `s`,
/// then `v` as 27 or 28) of the signed transaction whose EIP-2718 encoding is
/// given, or `None` where the bytes are no such transaction.
pub uninterp spec fn signing_parts(envelope: Seq<u8>) -> Option<(Seq<u8>, Seq<u8>)>;

/// The SEC1-compressed public key that secp256k1 recovery yields for a raw
/// signature over a prehashed message, or the recovery error's text.
pub uninterp spec fn recovered_key(signature: Seq<u8>, prehash: Seq<u8>) -> Result<Seq<u8>, Seq<char>>;

/// The Ethereum address of a SEC1-encoded public key, or `None` where the
/// bytes encode no key.
pub uninterp spec fn key_address(key: Seq<u8>) -> Option<Seq<u8>>;

/// Trusted: decodes the bytes with `alloy_eips::eip2718::Decodable2718::decode_2718_exact`
/// into an `alloy_consensus::TxEnvelope`, then takes `TxEnvelope::signature_hash`
/// and `TxEnvelope::signature` (as `Signature::as_bytes`). Claimed: the result
/// is `signing_parts` of the bytes; nothing is said of that name's value.
#[verifier::external_body]
pub(crate) fn decode_signing_parts(envelope: &[u8]) -> (r: Option<([u8; 32], [u8; 65])>)
    ensures
        match r {
            Some(parts) => signing_parts(envelope@) == Some((parts.0@, parts.1@)),
            None => signing_parts(envelope@) is None,
        },
{
    let tx = TxEnvelope::decode_2718_exact(envelope).ok()?;
    Some((tx.signature_hash().0, tx.signature().as_bytes()))
}

/// Trusted: parses the raw signature with `alloy_primitives::Signature::from_raw_array`,
/// recovers the key with `Signature::recover_from_prehash` and encodes it with
/// `VerifyingKey::to_encoded_point(true)`; errors are kept as their text.
/// Claimed: the result is `recovered_key` of the arguments, and a recovered
/// key takes the 33 bytes of the compressed SEC1 form, whose first byte is
/// 2 or 3 (the parity of the point's `y` coordinate).
#[verifier::external_body]
pub(crate) fn recover_signer_key(signature: &[u8; 65], prehash: &[u8; 32]) -> (r: Result<Vec<u8>, String>)
    ensures
        match r {
            Ok(key) => recovered_key(signature@, prehash@) == Ok::<Seq<u8>, Seq<char>>(key@)
                && key@.len() == 33 && (key@[0] == 2 || key@[0] == 3),
            Err(reason) => recovered_key(signature@, prehash@) == Err::<Seq<u8>, Seq<char>>(reason@),
        },
{
    let signature = match Signature::from_raw_array(signature) {
        Ok(signature) => signature,
        Err(error) => return Err(error.to_string()),
    };
    match signature.recover_from_prehash(&B256::from(*prehash)) {
        Ok(key) => Ok(key.to_encoded_point(true).as_bytes().to_vec()),
        Err(error) => Err(error.to_string()),
    }
}

/// Trusted: decodes the key with `k256::ecdsa::VerifyingKey::from_sec1_bytes`
/// and takes `alloy_primitives::Address::from_public_key`. Claimed: the
/// result is `key_address` of the bytes.
#[verifier::external_body]
pub(crate) fn address_of_key(key: &[u8]) -> (r: Option<[u8; 20]>)
    ensures
        match r {
            Some(address) => key_address(key@) == Some(address@),
            None => key_address(key@) is None,
        },
{
    let key = k256::ecdsa::VerifyingKey::from_sec1_bytes(key).ok()?;
    Some(Address::from_public_key(&key).0 .0)
}

} // verus!
