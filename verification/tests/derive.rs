use keystream::keygen::{
    charset_symbol, derive_generator_seed, generate_key, generate_random_bytes,
    generate_random_string, low_byte,
};
use keystream::nonce::{derive_salt_and_nonce, NONCE_LEN, SALT_LEN};

const CHARSET: &str = "ABCDEFGHIJKLMNOPQRSTUVWXYZabcdefghijklmnopqrstuvwxyz0123456789";

#[test]
fn salt_and_nonce_of_two_passphrases() {
    let (salt, nonce) = derive_salt_and_nonce("correct horse", "battery staple", SALT_LEN, NONCE_LEN);
    assert_eq!(
        salt,
        vec![192, 146, 24, 101, 195, 85, 126, 197, 144, 108, 4, 254, 113, 120, 245, 51]
    );
    assert_eq!(nonce, vec![0, 244, 23, 117, 121, 111, 65, 187, 19, 223, 48, 76]);
}

#[test]
fn salt_and_nonce_of_empty_passphrases() {
    let (salt, nonce) = derive_salt_and_nonce("", "", 16, 12);
    assert_eq!(
        salt,
        vec![100, 168, 104, 212, 178, 58, 246, 150, 211, 115, 77, 11, 129, 77, 4, 205]
    );
    assert_eq!(nonce, vec![45, 219, 230, 175, 44, 181, 243, 43, 5, 225, 29, 104]);
}

#[test]
fn nonce_depends_on_both_passphrases() {
    let (_, nonce) = derive_salt_and_nonce("a", "b", 16, 12);
    let (_, other_first) = derive_salt_and_nonce("c", "b", 16, 12);
    let (_, other_second) = derive_salt_and_nonce("a", "c", 16, 12);
    assert_ne!(nonce, other_first);
    assert_ne!(nonce, other_second);
    let (_, again) = derive_salt_and_nonce("a", "b", 16, 12);
    assert_eq!(nonce, again);
}

#[test]
fn derived_lengths_are_as_asked() {
    let (salt, nonce) = derive_salt_and_nonce("a", "b", 0, 40);
    assert_eq!(salt.len(), 0);
    assert_eq!(nonce.len(), 40);
}

#[test]
fn generator_seed_of_password_seed_and_salt() {
    let seed: Vec<u8> = (0..64).collect();
    let derived = derive_generator_seed("password", &seed, &[7; 32]);
    assert_eq!(
        derived,
        vec![
            209, 113, 34, 223, 105, 21, 248, 232, 200, 216, 16, 163, 57, 163, 23, 179, 160, 171,
            71, 44, 73, 218, 53, 71, 125, 252, 205, 98, 164, 61, 210, 31
        ]
    );
}

#[test]
fn key_of_seventy_bytes() {
    let seed: Vec<u8> = (0..64).collect();
    let key = generate_key("password", &seed, &[7; 32], 70);
    assert_eq!(
        key,
        vec![
            117, 16, 179, 105, 92, 171, 62, 166, 15, 121, 34, 171, 23, 183, 189, 199, 240, 75, 18,
            88, 149, 78, 198, 92, 126, 185, 170, 251, 158, 59, 116, 30, 248, 77, 43, 202, 51, 109,
            206, 71, 222, 163, 168, 64, 241, 25, 78, 165, 85, 185, 22, 253, 133, 165, 204, 9, 8,
            94, 209, 108, 114, 74, 122, 220, 113, 163, 188, 54, 103, 24
        ]
    );
}

#[test]
fn shorter_key_is_a_prefix_of_a_longer_one() {
    let long = generate_key("pw", &[1, 2, 3], &[4, 5], 256);
    let short = generate_key("pw", &[1, 2, 3], &[4, 5], 10);
    assert_eq!(long.len(), 256);
    assert_eq!(short, long[..10].to_vec());
    assert_eq!(generate_key("pw", &[1, 2, 3], &[4, 5], 0), Vec::<u8>::new());
}

#[test]
fn low_byte_drops_upper_bits() {
    assert_eq!(low_byte(0), 0);
    assert_eq!(low_byte(0x1234_56ab), 0xab);
    assert_eq!(low_byte(0xffff_ff00), 0);
    assert_eq!(low_byte(u32::MAX), 0xff);
    assert_eq!(low_byte(256), 0);
}

#[test]
fn charset_symbols_in_order() {
    for (index, symbol) in CHARSET.chars().enumerate() {
        assert_eq!(charset_symbol(index), symbol.to_string());
    }
    assert_eq!(charset_symbol(0), "A");
    assert_eq!(charset_symbol(26), "a");
    assert_eq!(charset_symbol(52), "0");
    assert_eq!(charset_symbol(61), "9");
}

#[test]
fn random_string_has_length_and_charset() {
    let password = generate_random_string(64);
    assert_eq!(password.chars().count(), 64);
    assert!(password.chars().all(|symbol| CHARSET.contains(symbol)));
    assert_eq!(generate_random_string(0), "");
    assert_ne!(generate_random_string(64), generate_random_string(64));
}

#[test]
fn random_bytes_have_length() {
    assert_eq!(generate_random_bytes(0).len(), 0);
    assert_eq!(generate_random_bytes(32).len(), 32);
    assert_ne!(generate_random_bytes(64), vec![0u8; 64]);
}
