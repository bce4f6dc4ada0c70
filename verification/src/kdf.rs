//! Password-based key derivation, done by the `ring` crate.

use vstd::prelude::*;

verus! {

/// The number of iterations of every derivation in this library.
pub const KDF_ITERATIONS: u32 = 100_000;

/// The most bytes one derivation can yield: the digest's 32 bytes for each
/// of the block indices that fit in 32 bits.
pub const MAX_DERIVED_LEN: u64 = 137_438_953_440;

/// No password or salt may be longer than this, so that its length in
/// bits, with the framing that the derivation adds, fits in 64 bits.
pub const MAX_KDF_INPUT: u64 = 0x1000_0000_0000_0000;

/// The key that PBKDF2 with HMAC-SHA256 derives: `len` bytes, from the
/// `secret` (the password), the `salt` and the iteration count.
pub uninterp spec fn pbkdf2_hmac_sha256(
    iterations: u32,
    salt: Seq<u8>,
    secret: Seq<u8>,
    len: nat,
) -> Seq<u8>;

/// Calls `ring::pbkdf2::derive` with the algorithm `PBKDF2_HMAC_SHA256`.
///
/// Trusted: the bytes of `out` are replaced by the derived key of the same
/// length, which depends on the iteration count, the salt and the secret
/// alone. The conditions leave out the inputs on which `derive` panics: a
/// zero iteration count cannot be passed to it, and it refuses more
/// output than [`MAX_DERIVED_LEN`] and inputs too long to hash.
#[verifier::external_body]
pub(crate) fn pbkdf2_derive(iterations: u32, salt: &[u8], secret: &[u8], out: &mut Vec<u8>)
    requires
        iterations > 0,
        salt@.len() <= MAX_KDF_INPUT,
        secret@.len() <= MAX_KDF_INPUT,
        old(out)@.len() <= MAX_DERIVED_LEN,
    ensures
        final(out)@ == pbkdf2_hmac_sha256(iterations, salt@, secret@, old(out)@.len()),
        final(out)@.len() == old(out)@.len(),
{
    ring::pbkdf2::derive(
        ring::pbkdf2::PBKDF2_HMAC_SHA256,
        std::num::NonZeroU32::new(iterations).unwrap(),
        salt,
        secret,
        out,
    );
}

} // verus!
