use indy_wallet::crypto::{create_key, decrypt, encrypt_as_not_searchable};
use indy_wallet::errors::WalletError;
use indy_wallet::wallet::{Keys, ENCRYPTED_KEYS_LEN, KEYS_LEN, KEY_COUNT};

#[test]
fn keys_are_read_in_their_order() {
    let bytes: Vec<u8> = (0..224u32).map(|i| i as u8).collect();
    let keys = Keys::new(bytes.clone());
    assert_eq!(keys.name_key.to_vec(), bytes[0..32].to_vec());
    assert_eq!(keys.value_key.to_vec(), bytes[32..64].to_vec());
    assert_eq!(keys.type_key.to_vec(), bytes[64..96].to_vec());
    assert_eq!(keys.tag_name_key.to_vec(), bytes[96..128].to_vec());
    assert_eq!(keys.tag_value_key.to_vec(), bytes[128..160].to_vec());
    assert_eq!(keys.item_hmac_key.to_vec(), bytes[160..192].to_vec());
    assert_eq!(keys.tags_hmac_key.to_vec(), bytes[192..224].to_vec());
    assert_eq!(keys.to_bytes(), bytes);
}

#[test]
fn keys_are_read_from_the_front_of_longer_bytes() {
    let mut bytes: Vec<u8> = (0..224u32).map(|i| i as u8).collect();
    let keys = Keys::new(bytes.clone());
    bytes.extend_from_slice(&[0xaa; 28]);
    assert!(Keys::new(bytes) == keys);
}

#[test]
fn keys_bytes_round_trip() {
    let keys = Keys::generate();
    let bytes = keys.to_bytes();
    assert_eq!(bytes.len(), KEYS_LEN);
    assert_eq!(KEYS_LEN, KEY_COUNT * 32);
    assert!(Keys::new(bytes) == keys);
}

#[test]
fn generated_keys_differ() {
    let keys = Keys::generate();
    assert_ne!(keys.name_key, keys.value_key);
    assert_ne!(keys.item_hmac_key, keys.tags_hmac_key);
    assert!(keys != Keys::generate());
}

#[test]
fn keys_blob_round_trip() {
    let master_key = create_key();
    let keys = Keys::generate();
    let blob = keys.encrypt(&master_key);
    assert_eq!(blob.len(), ENCRYPTED_KEYS_LEN);
    assert!(Keys::decrypt_keys(&blob, &master_key) == Ok(keys.clone()));
    assert_ne!(blob, keys.encrypt(&master_key));
}

#[test]
fn generated_keys_blob_opens_under_its_master_key() {
    let master_key = create_key();
    let blob = Keys::gen_keys(master_key);
    assert_eq!(blob.len(), 252);
    let keys = match Keys::decrypt_keys(&blob, &master_key) {
        Ok(keys) => keys,
        Err(e) => panic!("the keys blob did not open: {:?}", e),
    };
    assert_eq!(keys.to_bytes(), decrypt(&blob, &master_key).unwrap());
    assert_ne!(Keys::gen_keys(master_key), blob);
}

#[test]
fn keys_blob_under_another_master_key_is_refused() {
    let blob = Keys::gen_keys(create_key());
    assert!(
        Keys::decrypt_keys(&blob, &create_key())
            == Err(WalletError::EncryptionError("Unable to decrypt wallet keys".to_string()))
    );
}

#[test]
fn keys_blob_that_is_broken_or_short_is_refused() {
    let master_key = create_key();
    let refused: Result<Keys, WalletError> =
        Err(WalletError::EncryptionError("Unable to decrypt wallet keys".to_string()));
    let mut blob = Keys::gen_keys(master_key);
    blob[100] ^= 1;
    assert!(Keys::decrypt_keys(&blob, &master_key) == refused);
    assert!(Keys::decrypt_keys(&[], &master_key) == refused);
    let short = encrypt_as_not_searchable(&[1u8; 223], &master_key);
    assert!(Keys::decrypt_keys(&short, &master_key) == refused);
    let exact = encrypt_as_not_searchable(&[1u8; 224], &master_key);
    assert!(Keys::decrypt_keys(&exact, &master_key) == Ok(Keys::new(vec![1u8; 224])));
}

#[test]
fn zeroized_keys_are_all_zero() {
    let mut keys = Keys::generate();
    keys.zeroize();
    assert_eq!(keys.to_bytes(), vec![0u8; 224]);
}
