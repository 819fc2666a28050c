//! Key derivation from the master password: PBKDF2 with HMAC-SHA256.

use vstd::prelude::*;

use hmac::Hmac;
use pbkdf2::pbkdf2;
use sha2::Sha256;

verus! {

/// The 32 bytes that PBKDF2-HMAC-SHA256 derives from `password` and `salt`
/// in `rounds` rounds.
pub uninterp spec fn pbkdf2_hmac_sha256(password: Seq<u8>, salt: Seq<u8>, rounds: u32) -> Seq<u8>;

/// Calls `pbkdf2::<Hmac<Sha256>>` of the `pbkdf2` crate with a 32-byte
/// output. That call only fails for a key HMAC rejects, and HMAC accepts
/// keys of every length, so its result is ignored. Claims that the output is
/// the 32 bytes `pbkdf2_hmac_sha256` names.
#[verifier::external_body]
pub(crate) fn pbkdf2_sha256_32(password: &[u8], salt: &[u8], rounds: u32) -> (result: Vec<u8>)
    ensures
        result@ == pbkdf2_hmac_sha256(password@, salt@, rounds),
        result@.len() == 32,
{
    let mut key = [0u8; 32];
    let _ = pbkdf2::<Hmac<Sha256>>(password, salt, rounds, &mut key);
    key.to_vec()
}

} // verus!
