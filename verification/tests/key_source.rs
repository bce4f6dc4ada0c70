use keystream::combine::combine_chunk;
use keystream::error::TransformError;
use keystream::key_source::{KeyDemand, KeyPolicy, KeySource, KeySupply};

#[test]
fn fresh_source_is_empty() {
    let source = KeySource::new(KeyPolicy::Cyclic, 8);
    assert_eq!(source.policy(), KeyPolicy::Cyclic);
    assert_eq!(source.capacity(), 8);
    assert_eq!(source.available(), 0);
    assert_eq!(source.demand(0), KeyDemand::Ready);
}

#[test]
fn cyclic_source_asks_for_all_the_room() {
    let mut source = KeySource::new(KeyPolicy::Cyclic, 8);
    assert_eq!(source.demand(3), KeyDemand::Read(8));
    assert_eq!(source.supply(&[1, 2]), Ok(KeySupply::Accepted));
    assert_eq!(source.demand(3), KeyDemand::Read(6));
    assert_eq!(source.supply(&[3, 4, 5]), Ok(KeySupply::Accepted));
    assert_eq!(source.demand(3), KeyDemand::Ready);
    assert_eq!(source.take(3), vec![1, 2, 3]);
    assert_eq!(source.available(), 2);
    assert_eq!(source.take(2), vec![4, 5]);
    assert_eq!(source.available(), 0);
}

#[test]
fn strict_source_asks_for_what_is_missing() {
    let mut source = KeySource::new(KeyPolicy::Strict, 8);
    assert_eq!(source.demand(5), KeyDemand::Read(5));
    assert_eq!(source.supply(&[1, 2]), Ok(KeySupply::Accepted));
    assert_eq!(source.demand(5), KeyDemand::Read(3));
    assert_eq!(source.supply(&[]), Err(TransformError::KeyExhausted));
    assert_eq!(source.available(), 2);
}

#[test]
fn cyclic_source_rewinds_once() {
    let mut source = KeySource::new(KeyPolicy::Cyclic, 8);
    assert_eq!(source.supply(&[]), Ok(KeySupply::Rewind));
    assert_eq!(source.supply(&[]), Err(TransformError::EmptyKey));
    let mut source = KeySource::new(KeyPolicy::Cyclic, 8);
    assert_eq!(source.supply(&[]), Ok(KeySupply::Rewind));
    assert_eq!(source.supply(&[7]), Ok(KeySupply::Accepted));
    assert_eq!(source.supply(&[]), Ok(KeySupply::Rewind));
}

#[test]
fn take_nothing_keeps_everything() {
    let mut source = KeySource::new(KeyPolicy::Strict, 4);
    assert_eq!(source.supply(&[9, 8, 7, 6]), Ok(KeySupply::Accepted));
    assert_eq!(source.take(0), Vec::<u8>::new());
    assert_eq!(source.take(4), vec![9, 8, 7, 6]);
}

#[test]
fn combine_without_nonce() {
    let mut data = vec![0x41, 0x41, 0x41, 0x00, 0xff];
    combine_chunk(&mut data, &[0x01, 0x02, 0x03, 0xaa, 0xff], &None);
    assert_eq!(data, vec![0x40, 0x43, 0x42, 0xaa, 0x00]);
}

#[test]
fn combine_with_nonce_repeats_nonce() {
    let mut data = vec![0x00, 0x00, 0x00, 0x00, 0x00];
    combine_chunk(&mut data, &[0x01, 0x02, 0x04, 0x08, 0x10], &Some(vec![0x80, 0x40]));
    assert_eq!(data, vec![0x81, 0x42, 0x84, 0x48, 0x90]);
}

#[test]
fn combine_twice_gives_data_back() {
    let plain: Vec<u8> = (0..200).map(|i| (i * 3) as u8).collect();
    let key: Vec<u8> = (0..200).map(|i| (i * 5 + 1) as u8).collect();
    let nonce = Some(vec![9, 8, 7, 6, 5, 4, 3]);
    let mut data = plain.clone();
    combine_chunk(&mut data, &key, &nonce);
    assert_ne!(data, plain);
    combine_chunk(&mut data, &key, &nonce);
    assert_eq!(data, plain);
}

#[test]
fn combine_empty_chunk() {
    let mut data: Vec<u8> = vec![];
    combine_chunk(&mut data, &[], &Some(vec![1]));
    assert_eq!(data, Vec::<u8>::new());
}
