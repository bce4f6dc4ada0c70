//! What a whole run computes, byte by byte, and the laws that follow.

use vstd::prelude::*;
use vstd::arithmetic::div_mod::{lemma_mod_mod, lemma_small_mod};
use crate::combine::{combine_byte, lemma_combine_byte_twice, mask_at};
use crate::key_source::KeyPolicy;

verus! {

/// The key byte that meets the input byte at `position`: under the cyclic
/// policy the key is repeated from its start, under the strict policy it is
/// not.
pub open spec fn key_at(policy: KeyPolicy, key: Seq<u8>, position: int) -> u8 {
    match policy {
        KeyPolicy::Cyclic => key[position % (key.len() as int)],
        KeyPolicy::Strict => key[position],
    }
}

/// The output byte at `position`. The nonce starts over with every chunk:
/// its byte is chosen by the position within the chunk.
pub open spec fn output_byte(
    input: Seq<u8>,
    key: Seq<u8>,
    policy: KeyPolicy,
    nonce: Option<Seq<u8>>,
    chunk_size: nat,
    position: int,
) -> u8 {
    combine_byte(
        input[position],
        key_at(policy, key, position),
        mask_at(nonce, position % (chunk_size as int)),
    )
}

/// The output of a run over `input` that reads chunks of `chunk_size` bytes.
pub open spec fn transformed(
    input: Seq<u8>,
    key: Seq<u8>,
    policy: KeyPolicy,
    nonce: Option<Seq<u8>>,
    chunk_size: nat,
) -> Seq<u8> {
    Seq::new(input.len(), |i: int| output_byte(input, key, policy, nonce, chunk_size, i))
}

/// A run is its own inverse: transforming the output again, with the same
/// key, policy, nonce and chunk size, gives the input back.
pub proof fn lemma_transform_twice(
    input: Seq<u8>,
    key: Seq<u8>,
    policy: KeyPolicy,
    nonce: Option<Seq<u8>>,
    chunk_size: nat,
)
    ensures
        transformed(
            transformed(input, key, policy, nonce, chunk_size),
            key,
            policy,
            nonce,
            chunk_size,
        ) == input,
{
    let once = transformed(input, key, policy, nonce, chunk_size);
    let twice = transformed(once, key, policy, nonce, chunk_size);
    assert forall|i: int| 0 <= i < input.len() implies twice[i] == input[i] by {
        lemma_combine_byte_twice(
            input[i],
            key_at(policy, key, i),
            mask_at(nonce, i % (chunk_size as int)),
        );
    }
    assert(twice =~= input);
}

/// Under the cyclic policy, without a nonce, the byte at `position` meets
/// the key byte at `position` modulo the length of the key.
pub proof fn lemma_cyclic_position(input: Seq<u8>, key: Seq<u8>, chunk_size: nat, position: int)
    requires
        0 <= position < input.len(),
    ensures
        transformed(input, key, KeyPolicy::Cyclic, None, chunk_size)[position] == input[position]
            ^ key[position % (key.len() as int)],
{
}

/// Whether the nonce byte chosen within the chunk is, at every position of
/// an input of `input_len` bytes, the nonce byte chosen by the position in
/// the whole input.
pub open spec fn nonce_follows_positions(nonce: Seq<u8>, chunk_size: nat, input_len: nat) -> bool {
    forall|i: int|
        0 <= i < input_len ==> nonce[(i % (chunk_size as int)) % (nonce.len() as int)]
            == #[trigger] nonce[i % (nonce.len() as int)]
}

/// An input that fits one chunk is one on which the nonce follows the
/// positions.
pub proof fn lemma_single_chunk_follows(nonce: Seq<u8>, chunk_size: nat, input_len: nat)
    requires
        input_len <= chunk_size,
    ensures
        nonce_follows_positions(nonce, chunk_size, input_len),
{
    assert forall|i: int| 0 <= i < input_len implies nonce[(i % (chunk_size as int)) % (
    nonce.len() as int)] == #[trigger] nonce[i % (nonce.len() as int)] by {
        lemma_small_mod(i as nat, chunk_size);
    }
}

/// A chunk size that is a multiple of the nonce's length is one on which
/// the nonce follows the positions, whatever the input's length.
pub proof fn lemma_aligned_chunks_follow(nonce: Seq<u8>, chunk_size: nat, input_len: nat)
    requires
        nonce.len() > 0,
        chunk_size > 0,
        chunk_size % nonce.len() == 0,
    ensures
        nonce_follows_positions(nonce, chunk_size, input_len),
{
    let n = nonce.len() as int;
    let c = chunk_size as int;
    assert forall|i: int| 0 <= i < input_len implies nonce[(i % c) % n] == #[trigger] nonce[i
        % n] by {
        let q = c / n;
        assert(c == n * q) by {
            vstd::arithmetic::div_mod::lemma_fundamental_div_mod(c, n);
        }
        assert(q > 0) by (nonlinear_arith)
            requires
                c == n * q,
                c > 0,
                n > 0,
        ;
        lemma_mod_mod(i, n, q);
    }
}

/// Under the strict policy the byte at `position` meets the key byte at the
/// same position and the nonce byte at `position` modulo the nonce's
/// length, on every input on which the nonce follows the positions.
pub proof fn lemma_strict_position(
    input: Seq<u8>,
    key: Seq<u8>,
    nonce: Seq<u8>,
    chunk_size: nat,
    position: int,
)
    requires
        0 <= position < input.len(),
        input.len() <= key.len(),
        nonce_follows_positions(nonce, chunk_size, input.len()),
    ensures
        transformed(input, key, KeyPolicy::Strict, Some(nonce), chunk_size)[position]
            == input[position] ^ key[position] ^ nonce[position % (nonce.len() as int)],
{
    assert(nonce[(position % (chunk_size as int)) % (nonce.len() as int)] == nonce[position % (
    nonce.len() as int)]);
}

/// An input without bytes has an output without bytes.
pub proof fn lemma_empty_input(
    key: Seq<u8>,
    policy: KeyPolicy,
    nonce: Option<Seq<u8>>,
    chunk_size: nat,
)
    ensures
        transformed(Seq::<u8>::empty(), key, policy, nonce, chunk_size) == Seq::<u8>::empty(),
{
    assert(transformed(Seq::<u8>::empty(), key, policy, nonce, chunk_size) =~= Seq::<u8>::empty());
}

} // verus!
