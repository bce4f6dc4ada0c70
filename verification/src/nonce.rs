//! The nonce of a strict run, derived from two passphrases.

use vstd::prelude::*;
use vstd::string::*;
use crate::kdf::{pbkdf2_derive, pbkdf2_hmac_sha256, KDF_ITERATIONS, MAX_DERIVED_LEN, MAX_KDF_INPUT};

verus! {

/// The length of the intermediate secret in a strict run.
pub const SALT_LEN: usize = 16;

/// The length of the nonce in a strict run.
pub const NONCE_LEN: usize = 12;

/// The intermediate secret: derived from the first passphrase with an
/// empty salt.
pub open spec fn derived_salt(salt_password: Seq<u8>, salt_len: nat) -> Seq<u8> {
    pbkdf2_hmac_sha256(KDF_ITERATIONS, Seq::empty(), salt_password, salt_len)
}

/// The nonce: derived from the second passphrase, salted with the
/// intermediate secret, so that it depends on both passphrases.
pub open spec fn derived_nonce(
    salt_password: Seq<u8>,
    nonce_password: Seq<u8>,
    salt_len: nat,
    nonce_len: nat,
) -> Seq<u8> {
    pbkdf2_hmac_sha256(
        KDF_ITERATIONS,
        derived_salt(salt_password, salt_len),
        nonce_password,
        nonce_len,
    )
}

/// Derives the intermediate secret and the nonce from the two passphrases,
/// taken as their UTF-8 bytes.
pub fn derive_salt_and_nonce(
    salt_password: &str,
    nonce_password: &str,
    salt_len: usize,
    nonce_len: usize,
) -> (derived: (Vec<u8>, Vec<u8>))
    requires
        salt_password.spec_bytes().len() <= MAX_KDF_INPUT,
        nonce_password.spec_bytes().len() <= MAX_KDF_INPUT,
        salt_len <= MAX_DERIVED_LEN,
        nonce_len <= MAX_DERIVED_LEN,
    ensures
        derived.0@ == derived_salt(salt_password.spec_bytes(), salt_len as nat),
        derived.1@ == derived_nonce(
            salt_password.spec_bytes(),
            nonce_password.spec_bytes(),
            salt_len as nat,
            nonce_len as nat,
        ),
        derived.0@.len() == salt_len,
        derived.1@.len() == nonce_len,
{
    let mut salt: Vec<u8> = vec![0u8; salt_len];
    let mut nonce: Vec<u8> = vec![0u8; nonce_len];
    let no_salt: Vec<u8> = Vec::new();
    pbkdf2_derive(KDF_ITERATIONS, no_salt.as_slice(), salt_password.as_bytes(), &mut salt);
    pbkdf2_derive(KDF_ITERATIONS, salt.as_slice(), nonce_password.as_bytes(), &mut nonce);
    (salt, nonce)
}

} // verus!
