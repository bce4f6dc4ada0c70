//! Combining one chunk of data with key bytes and, optionally, a nonce.

use vstd::prelude::*;

verus! {

/// The nonce as a sequence of bytes, if one is configured.
pub open spec fn nonce_view(nonce: Option<Vec<u8>>) -> Option<Seq<u8>> {
    match nonce {
        Some(bytes) => Some(bytes@),
        None => None,
    }
}

/// A configured nonce holds at least one byte.
pub open spec fn nonce_usable(nonce: Option<Seq<u8>>) -> bool {
    nonce matches Some(bytes) ==> bytes.len() > 0
}

/// The nonce byte that masks the byte at `index` of a chunk: the nonce is
/// repeated from its start as often as the chunk needs.
pub open spec fn mask_at(nonce: Option<Seq<u8>>, index: int) -> Option<u8> {
    match nonce {
        Some(bytes) => Some(bytes[index % (bytes.len() as int)]),
        None => None,
    }
}

/// One output byte: data, key and mask joined by exclusive-or.
pub open spec fn combine_byte(data: u8, key: u8, mask: Option<u8>) -> u8 {
    match mask {
        Some(m) => data ^ key ^ m,
        None => data ^ key,
    }
}

/// A chunk combined with as many key bytes, index by index.
pub open spec fn combined(data: Seq<u8>, key: Seq<u8>, nonce: Option<Seq<u8>>) -> Seq<u8>
    recommends
        data.len() == key.len(),
        nonce_usable(nonce),
{
    Seq::new(data.len(), |i: int| combine_byte(data[i], key[i], mask_at(nonce, i)))
}

/// Combining a byte twice with the same key byte and mask gives it back.
pub proof fn lemma_combine_byte_twice(data: u8, key: u8, mask: Option<u8>)
    ensures
        combine_byte(combine_byte(data, key, mask), key, mask) == data,
{
    match mask {
        Some(m) => {
            assert((data ^ key ^ m) ^ key ^ m == data) by (bit_vector);
        },
        None => {
            assert((data ^ key) ^ key == data) by (bit_vector);
        },
    }
}

/// Combining a chunk twice with the same key bytes and nonce gives it back.
pub proof fn lemma_combined_twice(data: Seq<u8>, key: Seq<u8>, nonce: Option<Seq<u8>>)
    ensures
        combined(combined(data, key, nonce), key, nonce) == data,
{
    let once = combined(data, key, nonce);
    let twice = combined(once, key, nonce);
    assert forall|i: int| 0 <= i < data.len() implies twice[i] == data[i] by {
        lemma_combine_byte_twice(data[i], key[i], mask_at(nonce, i));
    }
    assert(twice =~= data);
}

/// Replaces every byte of `data` by its combination with the key byte, and
/// the nonce byte where a nonce is configured, at the same index. Chunk
/// and key bytes are of one length.
pub fn combine_chunk(data: &mut Vec<u8>, key: &[u8], nonce: &Option<Vec<u8>>)
    requires
        old(data)@.len() == key@.len(),
        nonce_usable(nonce_view(*nonce)),
    ensures
        final(data)@ == combined(old(data)@, key@, nonce_view(*nonce)),
{
    let ghost before = data@;
    let count: usize = data.len();
    let mut i: usize = 0;
    while i < count
        invariant
            i <= count,
            data@.len() == count,
            before.len() == count,
            count == key@.len(),
            nonce_usable(nonce_view(*nonce)),
            forall|j: int|
                0 <= j < i ==> data@[j] == combine_byte(
                    before[j],
                    key@[j],
                    mask_at(nonce_view(*nonce), j),
                ),
            forall|j: int| i <= j < count ==> data@[j] == before[j],
        decreases count - i,
    {
        let plain: u8 = data[i];
        let key_byte: u8 = key[i];
        let mixed: u8 = match nonce {
            Some(bytes) => {
                let mask: u8 = bytes[i % bytes.len()];
                assert(plain ^ (key_byte ^ mask) == plain ^ key_byte ^ mask) by (bit_vector);
                plain ^ (key_byte ^ mask)
            },
            None => plain ^ key_byte,
        };
        data.set(i, mixed);
        i += 1;
    }
    assert(data@ =~= combined(before, key@, nonce_view(*nonce)));
}

} // verus!
