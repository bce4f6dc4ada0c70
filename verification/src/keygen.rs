//! Key material: random passwords, seeds and salts, and the key bytes that
//! a seeded generator hands out.

use vstd::prelude::*;
use vstd::string::*;
use rand::rngs::{StdRng, ThreadRng};
use rand::{Rng, RngCore, SeedableRng};
use crate::kdf::{pbkdf2_derive, pbkdf2_hmac_sha256, KDF_ITERATIONS, MAX_KDF_INPUT};

verus! {

/// The length of a derived key and of the seed of the generator.
pub const KEY_LENGTH: usize = 32;

/// The generator of `rand` that is seeded with 32 bytes.
#[verifier::external_type_specification]
#[verifier::external_body]
pub struct ExStdRng(StdRng);

/// The generator of `rand` that the system seeds, one for each thread.
#[verifier::external_type_specification]
#[verifier::external_body]
pub struct ExThreadRng(ThreadRng);

/// The words that a seeded generator holds in store: at 0 the word it
/// hands out next, at 1 the one after it, and so on.
pub uninterp spec fn rng_stream(rng: StdRng) -> Map<nat, u32>;

/// The words that a generator made from `seed` hands out, by position.
pub uninterp spec fn seeded_stream(seed: Seq<u8>) -> Map<nat, u32>;

/// Calls `StdRng::from_seed`.
///
/// Trusted: the words that the generator will hand out, each at its
/// position, depend on the seed alone.
#[verifier::external_body]
fn seeded_rng(seed: &Vec<u8>) -> (rng: StdRng)
    requires
        seed@.len() == KEY_LENGTH,
    ensures
        forall|position: nat| #[trigger]
            rng_stream(rng)[position] == seeded_stream(seed@)[position],
{
    let mut bytes = [0u8; 32];
    bytes.copy_from_slice(seed);
    StdRng::from_seed(bytes)
}

/// Calls `RngCore::next_u32` on a seeded generator.
///
/// Trusted: the generator hands out the first word it holds in store, and
/// every other word moves up by one position.
#[verifier::external_body]
fn next_word(rng: &mut StdRng) -> (word: u32)
    ensures
        word == rng_stream(*old(rng))[0],
        forall|position: nat| #[trigger]
            rng_stream(*final(rng))[position] == rng_stream(*old(rng))[(position + 1) as nat],
{
    rng.next_u32()
}

/// Calls `rand::thread_rng`.
///
/// Trusted: nothing is said of the generator.
#[verifier::external_body]
fn thread_rng() -> ThreadRng {
    rand::thread_rng()
}

/// Calls `Rng::gen_range` with the range from 0 up to `bound`, exclusive.
///
/// Trusted: the result lies in the range. An empty range is left out: on
/// it `gen_range` panics.
#[verifier::external_body]
fn random_below(rng: &mut ThreadRng, bound: usize) -> (index: usize)
    requires
        bound > 0,
    ensures
        index < bound,
{
    rng.gen_range(0..bound)
}

/// Calls `RngCore::fill_bytes`.
///
/// Trusted: the length of `bytes` stays; nothing is said of its content.
#[verifier::external_body]
fn fill_random(rng: &mut ThreadRng, bytes: &mut Vec<u8>)
    ensures
        final(bytes)@.len() == old(bytes)@.len(),
{
    rng.fill_bytes(bytes)
}

/// The number of characters that random passwords are made of.
pub const CHARSET_LEN: usize = 62;

/// The characters that random passwords are made of: the capital letters,
/// the small letters and the digits.
pub open spec fn charset() -> Seq<char> {
    "ABCDEFGHIJKLMNOPQRSTUVWXYZabcdefghijklmnopqrstuvwxyz0123456789"@
}

/// The character of the set at `index`, as a string.
pub fn charset_symbol(index: usize) -> (symbol: &'static str)
    requires
        index < CHARSET_LEN,
    ensures
        charset().len() == CHARSET_LEN,
        symbol@ == seq![charset()[index as int]],
{
    let all: &'static str = "ABCDEFGHIJKLMNOPQRSTUVWXYZabcdefghijklmnopqrstuvwxyz0123456789";
    proof {
        reveal_strlit("ABCDEFGHIJKLMNOPQRSTUVWXYZabcdefghijklmnopqrstuvwxyz0123456789");
        assert forall|i: int| 0 <= i < all@.len() implies '\0' <= #[trigger] all@[i]
            <= '\u{7f}' by {
            assert(all@.len() == 62);
        }
    }
    let symbol: &'static str = all.substring_ascii(index, index + 1);
    assert(symbol@ =~= seq![charset()[index as int]]);
    symbol
}

/// A password of `length` characters, each chosen at random from the set.
pub fn generate_random_string(length: usize) -> (password: String)
    ensures
        password@.len() == length,
        forall|i: int| 0 <= i < length ==> charset().contains(#[trigger] password@[i]),
{
    proof {
        reveal_strlit("ABCDEFGHIJKLMNOPQRSTUVWXYZabcdefghijklmnopqrstuvwxyz0123456789");
    }
    let mut rng: ThreadRng = thread_rng();
    let mut password: String = String::new();
    let mut made: usize = 0;
    while made < length
        invariant
            made <= length,
            charset().len() == 62,
            password@.len() == made,
            forall|i: int| 0 <= i < made ==> charset().contains(#[trigger] password@[i]),
        decreases length - made,
    {
        let index: usize = random_below(&mut rng, CHARSET_LEN);
        let symbol: &'static str = charset_symbol(index);
        password.append(symbol);
        made += 1;
    }
    password
}

/// `length` bytes chosen at random.
pub fn generate_random_bytes(length: usize) -> (bytes: Vec<u8>)
    ensures
        bytes@.len() == length,
{
    let mut bytes: Vec<u8> = vec![0u8; length];
    let mut rng: ThreadRng = thread_rng();
    fill_random(&mut rng, &mut bytes);
    bytes
}

/// The seed of the generator: a first key is derived from the password and
/// the salt; a second one from the password, salted with the first key
/// followed by the caller's seed.
pub open spec fn generator_seed(password: Seq<u8>, seed: Seq<u8>, salt: Seq<u8>) -> Seq<u8> {
    pbkdf2_hmac_sha256(
        KDF_ITERATIONS,
        pbkdf2_hmac_sha256(KDF_ITERATIONS, salt, password, KEY_LENGTH as nat) + seed,
        password,
        KEY_LENGTH as nat,
    )
}

/// The byte that a word of the generator becomes: its lowest eight bits.
pub open spec fn low_byte_spec(word: u32) -> u8 {
    (word % 256) as u8
}

/// The key of `length` bytes that a stream of words gives.
pub open spec fn key_bytes(stream: Map<nat, u32>, length: nat) -> Seq<u8> {
    Seq::new(length, |i: int| low_byte_spec(stream[i as nat]))
}

/// The lowest eight bits of `word`.
pub fn low_byte(word: u32) -> (byte: u8)
    ensures
        byte == low_byte_spec(word),
{
    assert(word & 0xff == word % 256) by (bit_vector);
    assert(word & 0xff < 256) by (bit_vector);
    (word & 0xff) as u8
}

/// Derives the seed of the generator from password, seed and salt.
pub fn derive_generator_seed(password: &str, seed: &[u8], salt: &[u8]) -> (derived: Vec<u8>)
    requires
        password.spec_bytes().len() <= MAX_KDF_INPUT,
        salt@.len() <= MAX_KDF_INPUT,
        seed@.len() + KEY_LENGTH <= MAX_KDF_INPUT,
        seed@.len() + KEY_LENGTH <= usize::MAX,
    ensures
        derived@ == generator_seed(password.spec_bytes(), seed@, salt@),
        derived@.len() == KEY_LENGTH,
{
    let mut derived_key: Vec<u8> = vec![0u8; KEY_LENGTH];
    pbkdf2_derive(KDF_ITERATIONS, salt, password.as_bytes(), &mut derived_key);
    let ghost first = derived_key@;
    derived_key.extend_from_slice(seed);
    assert(derived_key@ =~= first + seed@);
    let mut rng_seed: Vec<u8> = vec![0u8; KEY_LENGTH];
    pbkdf2_derive(KDF_ITERATIONS, derived_key.as_slice(), password.as_bytes(), &mut rng_seed);
    rng_seed
}

/// Generates a key of `length` bytes: the lowest eight bits of each of the
/// first `length` words of the generator that is seeded from password,
/// seed and salt.
pub fn generate_key(password: &str, seed: &[u8], salt: &[u8], length: usize) -> (key: Vec<u8>)
    requires
        password.spec_bytes().len() <= MAX_KDF_INPUT,
        salt@.len() <= MAX_KDF_INPUT,
        seed@.len() + KEY_LENGTH <= MAX_KDF_INPUT,
        seed@.len() + KEY_LENGTH <= usize::MAX,
    ensures
        key@ == key_bytes(
            seeded_stream(generator_seed(password.spec_bytes(), seed@, salt@)),
            length as nat,
        ),
{
    let rng_seed: Vec<u8> = derive_generator_seed(password, seed, salt);
    let mut rng: StdRng = seeded_rng(&rng_seed);
    let ghost stream = seeded_stream(rng_seed@);
    let mut key: Vec<u8> = Vec::with_capacity(length);
    let mut made: usize = 0;
    while made < length
        invariant
            made <= length,
            key@ == key_bytes(stream, made as nat),
            forall|position: nat| #[trigger]
                rng_stream(rng)[position] == stream[(position + made) as nat],
        decreases length - made,
    {
        let word: u32 = next_word(&mut rng);
        key.push(low_byte(word));
        made += 1;
        assert(key@ =~= key_bytes(stream, made as nat));
    }
    key
}

} // verus!
