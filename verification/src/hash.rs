//! The one trusted primitive: the Keccak-256 digest.
use vstd::prelude::*;

verus! {

/// The Keccak-256 digest of a byte string, as a 32-byte sequence.
///
/// The digest is a pure function of the input bytes; its value is not
/// axiomatized here, only applied by the trusted wrapper below, so every
/// contract that mentions it is exact relative to the real hash.
pub uninterp spec fn keccak256_of(input: Seq<u8>) -> Seq<u8>;

/// Relies on `near_sdk::env::keccak256_array`: the Keccak-256 digest of the
/// input bytes, 32 bytes long and depending on the input bytes alone.
#[verifier::external_body]
pub(crate) fn keccak256(input: &Vec<u8>) -> (digest: [u8; 32])
    ensures
        digest@ == keccak256_of(input@),
{
    near_sdk::env::keccak256_array(input)
}

} // verus!
