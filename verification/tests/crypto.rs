use indy_wallet::crypto::{
    can_seal, create_key, decrypt, encrypt_as_not_searchable, encrypt_as_searchable, key_at, CryptoError, KEY_LEN,
    MAX_MESSAGE_LEN, NONCE_LEN, OVERHEAD_LEN, TAG_LEN,
};

#[test]
fn searchable_round_trip() {
    let key = create_key();
    let hmac_key = create_key();
    let blob = encrypt_as_searchable(b"hello", &key, &hmac_key);
    assert_eq!(blob.len(), 5 + 28);
    assert_eq!(decrypt(&blob, &key).unwrap(), b"hello".to_vec());
}

#[test]
fn searchable_is_the_same_for_the_same_data_and_keys() {
    let key = create_key();
    let hmac_key = create_key();
    let first = encrypt_as_searchable(b"hello", &key, &hmac_key);
    let second = encrypt_as_searchable(b"hello", &key, &hmac_key);
    assert_eq!(first, second);
    assert_ne!(first, encrypt_as_searchable(b"hellp", &key, &hmac_key));
    assert_ne!(first, encrypt_as_searchable(b"hello", &create_key(), &hmac_key));
    assert_ne!(first, encrypt_as_searchable(b"hello", &key, &create_key()));
}

#[test]
fn searchable_nonce_depends_on_the_hmac_key_alone() {
    let hmac_key = create_key();
    let first = encrypt_as_searchable(b"hello", &create_key(), &hmac_key);
    let second = encrypt_as_searchable(b"hello", &create_key(), &hmac_key);
    assert_eq!(first[..NONCE_LEN], second[..NONCE_LEN]);
    assert_ne!(first[NONCE_LEN..], second[NONCE_LEN..]);
}

#[test]
fn searchable_blob_of_known_keys() {
    // The nonce is the front of the HMAC-SHA-256 of the empty message under the zero key.
    let key = [0u8; 32];
    let blob = encrypt_as_searchable(b"", &key, &key);
    assert_eq!(blob[..NONCE_LEN], [0xb6, 0x13, 0x67, 0x9a, 0x08, 0x14, 0xd9, 0xec, 0x77, 0x2f, 0x95, 0xd7]);
    assert_eq!(blob.len(), OVERHEAD_LEN);
    assert_eq!(decrypt(&blob, &key), Ok(vec![]));
}

#[test]
fn not_searchable_round_trip() {
    let key = create_key();
    let blob = encrypt_as_not_searchable(b"hello", &key);
    assert_eq!(blob.len(), 5 + OVERHEAD_LEN);
    assert_eq!(decrypt(&blob, &key).unwrap(), b"hello".to_vec());
    assert_ne!(blob, encrypt_as_not_searchable(b"hello", &key));
}

#[test]
fn empty_data_round_trips() {
    let key = create_key();
    let blob = encrypt_as_not_searchable(b"", &key);
    assert_eq!(blob.len(), NONCE_LEN + TAG_LEN);
    assert_eq!(decrypt(&blob, &key), Ok(vec![]));
}

#[test]
fn truncated_blob_is_refused() {
    let key = create_key();
    let blob = encrypt_as_not_searchable(b"hello", &key);
    for len in 0..blob.len() {
        assert_eq!(decrypt(&blob[..len], &key), Err(CryptoError));
    }
    assert_eq!(decrypt(&[], &key), Err(CryptoError));
    assert_eq!(decrypt(&[0u8; 11], &key), Err(CryptoError));
    assert_eq!(decrypt(&[0u8; 12], &key), Err(CryptoError));
    assert_eq!(decrypt(&[0u8; 27], &key), Err(CryptoError));
    assert_eq!(decrypt(&[0u8; 28], &key), Err(CryptoError));
}

#[test]
fn flipped_bit_is_refused() {
    let key = create_key();
    let blob = encrypt_as_searchable(b"hello", &key, &create_key());
    for bit in 0..blob.len() * 8 {
        let mut broken = blob.clone();
        broken[bit / 8] ^= 1 << (bit % 8);
        assert_eq!(decrypt(&broken, &key), Err(CryptoError));
    }
}

#[test]
fn other_key_is_refused() {
    let key = create_key();
    let blob = encrypt_as_not_searchable(b"hello", &key);
    assert_eq!(decrypt(&blob, &create_key()), Err(CryptoError));
}

#[test]
fn keys_are_fresh() {
    assert_ne!(create_key(), create_key());
    assert_eq!(create_key().len(), KEY_LEN);
}

#[test]
fn key_is_read_where_it_stands() {
    let bytes: Vec<u8> = (0..40u8).collect();
    let first = key_at(&bytes, 0);
    assert_eq!(first.to_vec(), (0..32u8).collect::<Vec<u8>>());
    let last = key_at(&bytes, 8);
    assert_eq!(last.to_vec(), (8..40u8).collect::<Vec<u8>>());
}

#[test]
fn cipher_takes_what_fits() {
    assert!(can_seal(b""));
    assert!(can_seal(&[0u8; 1000]));
    assert_eq!(MAX_MESSAGE_LEN, 64 * ((1u64 << 32) - 1));
}
