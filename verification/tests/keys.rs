use gotatun_throughput::keys::{
    decode_key, encode_key, key_from_bytes, public_key, HexError, KeyError,
};

#[test]
fn keys_must_be_exactly_32_bytes() {
    assert!(decode_key(&"01".repeat(32)).is_ok());
    assert!(decode_key(&"01".repeat(31)).is_err());
}

#[test]
fn keys_decode_to_their_bytes() {
    assert_eq!(decode_key(&"01".repeat(32)), Ok([1u8; 32]));
    assert_eq!(decode_key(&"aF".repeat(32)), Ok([0xaf; 32]));
    let text = "000102030405060708090a0b0c0d0e0f101112131415161718191a1b1c1d1e1f";
    let mut key = [0u8; 32];
    for i in 0..32 {
        key[i] = i as u8;
    }
    assert_eq!(decode_key(text), Ok(key));
    assert_eq!(encode_key(&key), text);
}

#[test]
fn keys_of_another_length_are_refused() {
    assert_eq!(decode_key(""), Err(KeyError::WrongLength));
    assert_eq!(decode_key(&"01".repeat(31)), Err(KeyError::WrongLength));
    assert_eq!(decode_key(&"01".repeat(33)), Err(KeyError::WrongLength));
    assert_eq!(key_from_bytes(&[7u8; 31]), Err(KeyError::WrongLength));
    assert_eq!(key_from_bytes(&[7u8; 32]), Ok([7u8; 32]));
}

#[test]
fn texts_that_are_not_hexadecimal_are_refused() {
    assert_eq!(
        decode_key("012"),
        Err(KeyError::InvalidHexadecimal(HexError::OddLength))
    );
    assert_eq!(
        decode_key("01xg"),
        Err(KeyError::InvalidHexadecimal(HexError::InvalidHexCharacter { c: 'x', index: 2 }))
    );
    // Two bytes in UTF-8, the first of which is refused.
    assert_eq!(
        decode_key("é"),
        Err(KeyError::InvalidHexadecimal(HexError::InvalidHexCharacter { c: 'Ã', index: 0 }))
    );
    assert_eq!(
        decode_key("éa"),
        Err(KeyError::InvalidHexadecimal(HexError::OddLength))
    );
}

#[test]
fn key_errors_have_words() {
    assert_eq!(
        KeyError::InvalidHexadecimal(HexError::OddLength).message(),
        "invalid hexadecimal key"
    );
    assert_eq!(KeyError::WrongLength.message(), "key must be 32 bytes");
}

#[test]
fn encoded_keys_decode() {
    for seed in 0..=255u8 {
        let mut key = [seed; 32];
        key[0] = seed.wrapping_mul(7);
        key[31] = seed.wrapping_add(101);
        assert_eq!(decode_key(&encode_key(&key)), Ok(key));
    }
}

#[test]
fn public_key_of_the_base_point() {
    let mut secret = [0u8; 32];
    secret[0] = 9;
    assert_eq!(
        encode_key(&public_key(&secret)),
        "422c8e7a6227d7bca1350b3e2bb7279f7897b87bb6854b783c60e80311ae3079"
    );
}

#[test]
fn public_keys_agree_on_a_shared_secret() {
    let (alice, bob) = ([3u8; 32], [5u8; 32]);
    let shared = |secret: [u8; 32], public: [u8; 32]| {
        gotatun::x25519::StaticSecret::from(secret)
            .diffie_hellman(&gotatun::x25519::PublicKey::from(public))
            .to_bytes()
    };
    assert_eq!(shared(alice, public_key(&bob)), shared(bob, public_key(&alice)));
}
