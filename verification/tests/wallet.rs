use std::cell::RefCell;
use std::collections::HashMap;
use std::rc::Rc;

use indy_wallet::crypto::encrypt_as_searchable;
use indy_wallet::encryption::encrypt_record;
use indy_wallet::errors::{WalletError, WalletStorageError};
use indy_wallet::iterator::{decrypt_fetched, decrypt_row, WalletIterator};
use indy_wallet::language::{Operator, TagName, TargetValue};
use indy_wallet::options::RecordOptions;
use indy_wallet::service::{WalletDescriptor, WalletMetadata, WalletService};
use indy_wallet::storage::{
    EncryptedTags, StorageEntity, StorageIterator, StorageValue, TagValue, WalletStorage, WalletStorageType,
};
use indy_wallet::wallet::{encrypt_name, encrypt_type, finish_read, finish_write, Keys, Tags, Wallet};

/// A row of the backend of these tests.
#[derive(Clone)]
struct Row {
    type_: Vec<u8>,
    name: Vec<u8>,
    value: StorageValue,
    tags: EncryptedTags,
}

impl Row {
    fn entity(&self) -> StorageEntity {
        StorageEntity::new(
            self.name.clone(),
            Some(self.value.clone()),
            Some(self.type_.clone()),
            Some(self.tags.clone()),
        )
    }
}

/// A cursor over rows that were copied when it was made.
struct Cursor {
    rows: Vec<Result<StorageEntity, WalletStorageError>>,
    at: usize,
}

impl StorageIterator for Cursor {
    fn next(&mut self) -> Result<Option<StorageEntity>, WalletStorageError> {
        if self.at < self.rows.len() {
            self.at += 1;
            self.rows[self.at - 1].clone().map(Some)
        } else {
            Ok(None)
        }
    }
}

/// A backend that keeps its rows in memory.
#[derive(Clone)]
struct Memory {
    rows: Rc<RefCell<Vec<Row>>>,
    closed: Rc<RefCell<bool>>,
}

impl Memory {
    fn new() -> Memory {
        Memory { rows: Rc::new(RefCell::new(Vec::new())), closed: Rc::new(RefCell::new(false)) }
    }

    fn find(&self, type_: &Vec<u8>, name: &Vec<u8>) -> Option<usize> {
        self.rows.borrow().iter().position(|row| &row.type_ == type_ && &row.name == name)
    }
}

fn tag_of_row<'a>(row: &'a Row, name: &TagName) -> Option<&'a TagValue> {
    match name {
        TagName::Encrypted(blob) => row.tags.get(blob),
        TagName::Plain(blob) => row.tags.get(blob),
    }
}

fn meets(row: &Row, query: &Operator) -> bool {
    match query {
        Operator::And(queries) => queries.iter().all(|q| meets(row, q)),
        Operator::Or(queries) => queries.iter().any(|q| meets(row, q)),
        Operator::Not(query) => !meets(row, query),
        Operator::Eq(name, value) => match (tag_of_row(row, name), value) {
            (Some(TagValue::Encrypted(stored)), TargetValue::Encrypted(wanted)) => stored == wanted,
            (Some(TagValue::Plain(stored)), TargetValue::Unencrypted(wanted)) => stored == wanted,
            _ => false,
        },
        Operator::Gt(name, TargetValue::Unencrypted(wanted)) => match tag_of_row(row, name) {
            Some(TagValue::Plain(stored)) => stored > wanted,
            _ => false,
        },
        Operator::In(name, values) => values.iter().any(|value| match (tag_of_row(row, name), value) {
            (Some(TagValue::Encrypted(stored)), TargetValue::Encrypted(wanted)) => stored == wanted,
            (Some(TagValue::Plain(stored)), TargetValue::Unencrypted(wanted)) => stored == wanted,
            _ => false,
        }),
        _ => false,
    }
}

impl WalletStorage for Memory {
    type Iter = Cursor;

    fn get(&self, type_: &Vec<u8>, name: &Vec<u8>, options: &str) -> Result<StorageEntity, WalletStorageError> {
        let options = match RecordOptions::from_json(options) {
            Ok(options) => options,
            Err(e) => return Err(WalletStorageError::IOError(format!("{:?}", e))),
        };
        match self.find(type_, name) {
            Some(at) => Ok(options.select(self.rows.borrow()[at].entity())),
            None => Err(WalletStorageError::ItemNotFound),
        }
    }

    fn add(
        &self,
        type_: &Vec<u8>,
        name: &Vec<u8>,
        value: &Vec<u8>,
        value_key: &Vec<u8>,
        tags: &EncryptedTags,
    ) -> Result<(), WalletStorageError> {
        if self.find(type_, name).is_some() {
            return Err(WalletStorageError::ItemAlreadyExists);
        }
        self.rows.borrow_mut().push(Row {
            type_: type_.clone(),
            name: name.clone(),
            value: StorageValue::new(value.clone(), value_key.clone()),
            tags: tags.clone(),
        });
        Ok(())
    }

    fn add_tags(&mut self, type_: &Vec<u8>, name: &Vec<u8>, tags: &EncryptedTags) -> Result<(), WalletStorageError> {
        let at = self.find(type_, name).ok_or(WalletStorageError::ItemNotFound)?;
        let mut rows = self.rows.borrow_mut();
        for i in 0..tags.len() {
            rows[at].tags.insert(tags.name_at(i).clone(), tags.value_at(i).clone());
        }
        Ok(())
    }

    fn update_tags(
        &mut self,
        type_: &Vec<u8>,
        name: &Vec<u8>,
        tags: &EncryptedTags,
    ) -> Result<(), WalletStorageError> {
        self.add_tags(type_, name, tags)
    }

    fn delete_tags(
        &mut self,
        type_: &Vec<u8>,
        name: &Vec<u8>,
        tag_names: &[TagName],
    ) -> Result<(), WalletStorageError> {
        let at = self.find(type_, name).ok_or(WalletStorageError::ItemNotFound)?;
        let mut rows = self.rows.borrow_mut();
        let mut kept = EncryptedTags::new();
        for i in 0..rows[at].tags.len() {
            let blob = rows[at].tags.name_at(i).clone();
            let gone = tag_names.iter().any(|tag_name| match tag_name {
                TagName::Encrypted(wanted) => wanted == &blob,
                TagName::Plain(wanted) => wanted == &blob,
            });
            if !gone {
                kept.insert(blob, rows[at].tags.value_at(i).clone());
            }
        }
        rows[at].tags = kept;
        Ok(())
    }

    fn update(
        &self,
        type_: &Vec<u8>,
        name: &Vec<u8>,
        value: &Vec<u8>,
        value_key: &Vec<u8>,
    ) -> Result<(), WalletStorageError> {
        let at = self.find(type_, name).ok_or(WalletStorageError::ItemNotFound)?;
        self.rows.borrow_mut()[at].value = StorageValue::new(value.clone(), value_key.clone());
        Ok(())
    }

    fn delete(&self, type_: &Vec<u8>, name: &Vec<u8>) -> Result<(), WalletStorageError> {
        let at = self.find(type_, name).ok_or(WalletStorageError::ItemNotFound)?;
        self.rows.borrow_mut().remove(at);
        Ok(())
    }

    fn get_all(&self) -> Result<Cursor, WalletStorageError> {
        Ok(Cursor { rows: self.rows.borrow().iter().map(|row| Ok(row.entity())).collect(), at: 0 })
    }

    fn search(&self, type_: &Vec<u8>, query: &Operator, _options: &str) -> Result<Cursor, WalletStorageError> {
        if let Operator::Regex(_, _) = query {
            return Err(WalletStorageError::IOError("no regex here".to_string()));
        }
        let rows = self.rows.borrow();
        let found = rows.iter().filter(|row| &row.type_ == type_ && meets(row, query));
        Ok(Cursor { rows: found.map(|row| Ok(row.entity())).collect(), at: 0 })
    }

    fn clear(&self) -> Result<(), WalletStorageError> {
        self.rows.borrow_mut().clear();
        Ok(())
    }

    fn close(&mut self) -> Result<(), WalletStorageError> {
        if *self.closed.borrow() {
            return Err(WalletStorageError::IOError("closed twice".to_string()));
        }
        *self.closed.borrow_mut() = true;
        Ok(())
    }
}

/// The storages of the backend of these tests, by name, each with the keys
/// blob and the credentials that it was created with.
#[derive(Clone)]
struct MemoryType {
    storages: Rc<RefCell<HashMap<String, (Vec<u8>, String, Memory)>>>,
}

impl MemoryType {
    fn new() -> MemoryType {
        MemoryType { storages: Rc::new(RefCell::new(HashMap::new())) }
    }
}

impl WalletStorageType for MemoryType {
    type Storage = Memory;

    fn create_storage(
        &self,
        name: &str,
        _config: Option<&str>,
        credentials: &str,
        keys: &Vec<u8>,
    ) -> Result<(), WalletStorageError> {
        if self.storages.borrow().contains_key(name) {
            return Err(WalletStorageError::ItemAlreadyExists);
        }
        self.storages
            .borrow_mut()
            .insert(name.to_string(), (keys.clone(), credentials.to_string(), Memory::new()));
        Ok(())
    }

    fn open_storage(
        &self,
        name: &str,
        _config: Option<&str>,
        credentials: &str,
    ) -> Result<(Memory, Vec<u8>), WalletStorageError> {
        match self.storages.borrow().get(name) {
            Some((keys, expected, memory)) if expected == credentials => {
                let opened = Memory { rows: memory.rows.clone(), closed: Rc::new(RefCell::new(false)) };
                Ok((opened, keys.clone()))
            }
            Some(_) => Err(WalletStorageError::IOError("wrong storage credentials".to_string())),
            None => Err(WalletStorageError::ItemNotFound),
        }
    }

    fn delete_storage(&self, name: &str, _config: Option<&str>, _credentials: &str) -> Result<(), WalletStorageError> {
        match self.storages.borrow_mut().remove(name) {
            Some(_) => Ok(()),
            None => Err(WalletStorageError::ItemNotFound),
        }
    }
}

fn tags_of(pairs: &[(&str, &str)]) -> Tags {
    let mut tags = Tags::new();
    for (name, value) in pairs {
        tags.insert(name.to_string(), value.to_string());
    }
    tags
}

fn open_wallet() -> (Wallet<Memory>, Memory, Keys) {
    let keys = Keys::generate();
    let memory = Memory::new();
    (Wallet::new("w", "pool", memory.clone(), keys.clone()), memory, keys)
}

const ALL: &str = "{\"retrieveType\": true, \"retrieveTags\": true}";

const MASTER_KEY: &str = "AAECAwQFBgcICQoLDA0ODxAREhMUFRYXGBkaGxwdHh8=";

fn credentials() -> String {
    format!("{{\"master_key\": \"{}\", \"storage_credentials\": {{\"user\": \"u\"}}}}", MASTER_KEY)
}

fn not_found() -> WalletError {
    WalletError::NotFound("Item not found".to_string())
}

#[test]
fn wallet_keeps_its_names() {
    let (wallet, _, _) = open_wallet();
    assert_eq!(wallet.get_name(), "w");
    assert_eq!(wallet.get_pool_name(), "pool");
    assert!(wallet.has_name("w"));
    assert!(!wallet.has_name("pool"));
}

#[test]
fn added_record_is_stored_encrypted_and_read_back() {
    let (wallet, memory, keys) = open_wallet();
    let tags = tags_of(&[("tag1", "v1"), ("~tag2", "v2")]);
    assert_eq!(wallet.add("type", "name", "value", &tags), Ok(()));

    let rows = memory.rows.borrow().clone();
    assert_eq!(rows.len(), 1);
    assert_eq!(rows[0].type_, encrypt_type("type", &keys));
    assert_eq!(rows[0].name, encrypt_name("name", &keys));
    assert_eq!(rows[0].type_, encrypt_as_searchable(b"type", &keys.type_key, &keys.item_hmac_key));
    assert_eq!(rows[0].name, encrypt_as_searchable(b"name", &keys.name_key, &keys.item_hmac_key));
    assert_eq!(rows[0].tags.len(), 2);

    let record = wallet.get("type", "name", ALL).unwrap();
    assert_eq!(record.name, "name");
    assert_eq!(record.type_, Some("type".to_string()));
    assert_eq!(record.value, Some("value".to_string()));
    assert_eq!(record.tags, Some(tags));
}

#[test]
fn read_gives_the_fields_that_its_options_ask_for() {
    let (wallet, _, _) = open_wallet();
    let tags = tags_of(&[("tag1", "v1")]);
    wallet.add("type", "name", "value", &tags).unwrap();
    let record = wallet.get("type", "name", "{}").unwrap();
    assert_eq!((record.name.as_str(), record.type_, record.value.as_deref(), record.tags), ("name", None, Some("value"), None));
    let record = wallet.get("type", "name", "{\"retrieveValue\": false, \"retrieveTags\": true}").unwrap();
    assert_eq!((record.type_, record.value, record.tags), (None, None, Some(tags)));
    assert_eq!(
        wallet.get("type", "name", "{\"retrieveValue\": 1}"),
        Err(WalletError::StorageError(
            "InputError(\"Options hold a field that is no boolean\")".to_string()
        ))
    );
}

#[test]
fn record_added_twice_exists_already() {
    let (wallet, _, _) = open_wallet();
    assert_eq!(wallet.add("type", "name", "value", &Tags::new()), Ok(()));
    assert_eq!(
        wallet.add("type", "name", "other", &Tags::new()),
        Err(WalletError::AlreadyExists("Item already exists".to_string()))
    );
    assert_eq!(wallet.add("type2", "name", "other", &Tags::new()), Ok(()));
}

#[test]
fn missing_record_is_not_found() {
    let (wallet, _, _) = open_wallet();
    assert_eq!(wallet.get("type", "name", ALL), Err(not_found()));
    assert_eq!(wallet.update("type", "name", "v"), Err(not_found()));
    assert_eq!(wallet.delete("type", "name"), Err(not_found()));
}

#[test]
fn updated_value_is_read_back_under_a_new_envelope() {
    let (wallet, memory, _) = open_wallet();
    wallet.add("type", "name", "value", &Tags::new()).unwrap();
    let before = memory.rows.borrow()[0].value.clone();
    assert_eq!(wallet.update("type", "name", "value"), Ok(()));
    let after = memory.rows.borrow()[0].value.clone();
    assert_ne!(before.data, after.data);
    assert_ne!(before.key, after.key);
    assert_eq!(wallet.update("type", "name", "new"), Ok(()));
    assert_eq!(wallet.get("type", "name", ALL).unwrap().value, Some("new".to_string()));
}

#[test]
fn tags_are_added_updated_and_deleted() {
    let (mut wallet, _, _) = open_wallet();
    wallet.add("type", "name", "value", &tags_of(&[("a", "1")])).unwrap();
    assert_eq!(wallet.add_tags("type", "name", &tags_of(&[("~b", "2"), ("c", "3")])), Ok(()));
    assert_eq!(
        wallet.get("type", "name", ALL).unwrap().tags,
        Some(tags_of(&[("a", "1"), ("~b", "2"), ("c", "3")]))
    );
    assert_eq!(wallet.update_tags("type", "name", &tags_of(&[("~b", "20")])), Ok(()));
    assert_eq!(
        wallet.get("type", "name", ALL).unwrap().tags,
        Some(tags_of(&[("a", "1"), ("~b", "20"), ("c", "3")]))
    );
    assert_eq!(wallet.delete_tags("type", "name", &["a".to_string(), "~b".to_string()]), Ok(()));
    assert_eq!(wallet.get("type", "name", ALL).unwrap().tags, Some(tags_of(&[("c", "3")])));
    assert_eq!(wallet.delete_tags("type", "none", &[]), Err(not_found()));
    assert_eq!(wallet.get_name(), "w");
}

#[test]
fn deleted_record_is_gone() {
    let (wallet, memory, _) = open_wallet();
    wallet.add("type", "name", "value", &Tags::new()).unwrap();
    assert_eq!(wallet.delete("type", "name"), Ok(()));
    assert_eq!(memory.rows.borrow().len(), 0);
    assert_eq!(wallet.get("type", "name", ALL), Err(not_found()));
}

#[test]
fn search_finds_by_encrypted_and_plain_tags() {
    let (wallet, _, _) = open_wallet();
    wallet.add("type", "one", "v1", &tags_of(&[("colour", "red"), ("~age", "18")])).unwrap();
    wallet.add("type", "two", "v2", &tags_of(&[("colour", "blue"), ("~age", "30")])).unwrap();
    wallet.add("other", "three", "v3", &tags_of(&[("colour", "red")])).unwrap();

    let query = Operator::Eq(
        TagName::Encrypted(b"colour".to_vec()),
        TargetValue::Unencrypted("red".to_string()),
    );
    let mut found = wallet.search("type", query, "{}").unwrap();
    let record = found.next().unwrap().unwrap();
    assert_eq!(record.name, "one");
    assert_eq!(record.type_, None);
    assert_eq!(record.value, Some("v1".to_string()));
    assert_eq!(record.tags, Some(tags_of(&[("colour", "red"), ("~age", "18")])));
    assert_eq!(found.next(), Ok(None));
    assert_eq!(found.next(), Ok(None));

    let query = Operator::Gt(TagName::Plain(b"~age".to_vec()), TargetValue::Unencrypted("20".to_string()));
    let mut found = wallet.search("type", query, "{}").unwrap();
    assert_eq!(found.next().unwrap().unwrap().name, "two");
    assert_eq!(found.next(), Ok(None));

    let query = Operator::Or(vec![
        Operator::In(
            TagName::Encrypted(b"colour".to_vec()),
            vec![TargetValue::Unencrypted("green".to_string()), TargetValue::Unencrypted("blue".to_string())],
        ),
        Operator::Not(Box::new(Operator::Eq(
            TagName::Plain(b"~age".to_vec()),
            TargetValue::Unencrypted("30".to_string()),
        ))),
    ]);
    let mut found = wallet.search("type", query, "{}").unwrap();
    assert_eq!(found.next().unwrap().unwrap().name, "one");
    assert_eq!(found.next().unwrap().unwrap().name, "two");
    assert_eq!(found.next(), Ok(None));
}

#[test]
fn search_that_the_backend_refuses_fails() {
    let (wallet, _, _) = open_wallet();
    let query = Operator::Regex(TagName::Plain(b"~a".to_vec()), TargetValue::Unencrypted("x".to_string()));
    match wallet.search("type", query, "{}") {
        Err(e) => assert_eq!(e, WalletError::StorageError("no regex here".to_string())),
        Ok(_) => panic!("the search went through"),
    }
}

#[test]
fn get_all_walks_every_record() {
    let (wallet, _, _) = open_wallet();
    wallet.add("t1", "one", "v1", &Tags::new()).unwrap();
    wallet.add("t2", "two", "v2", &tags_of(&[("a", "b")])).unwrap();
    let mut all = wallet.get_all().unwrap();
    let first = all.next().unwrap().unwrap();
    assert_eq!((first.name.as_str(), first.value.as_deref()), ("one", Some("v1")));
    let second = all.next().unwrap().unwrap();
    assert_eq!((second.name.as_str(), second.value.as_deref()), ("two", Some("v2")));
    assert_eq!(second.tags, Some(tags_of(&[("a", "b")])));
    assert_eq!(all.next(), Ok(None));
}

#[test]
fn closing_releases_the_storage_once() {
    let (mut wallet, memory, _) = open_wallet();
    assert_eq!(wallet.close(), Ok(()));
    assert!(*memory.closed.borrow());
    assert_eq!(wallet.close(), Err(WalletError::StorageError("closed twice".to_string())));
}

#[test]
fn closed_wallet_has_no_keys_left() {
    let (mut wallet, memory, keys) = open_wallet();
    wallet.add("type", "name", "value", &Tags::new()).unwrap();
    wallet.close().unwrap();
    assert_eq!(
        wallet.get("type", "name", ALL),
        Err(not_found())
    );
    wallet.add("type", "later", "value", &Tags::new()).unwrap();
    let zero = [0u8; 32];
    let rows = memory.rows.borrow().clone();
    assert_eq!(rows[0].name, encrypt_as_searchable(b"name", &keys.name_key, &keys.item_hmac_key));
    assert_eq!(rows[1].name, encrypt_as_searchable(b"later", &zero, &zero));
    assert_eq!(rows[1].type_, encrypt_as_searchable(b"type", &zero, &zero));
}

#[test]
fn iterator_stops_at_the_first_row_that_fails() {
    let keys = Keys::generate();
    let good = encrypt_record("one", Some("t"), Some("v"), &Tags::new(), &keys);
    let mut bad = encrypt_record("two", Some("t"), Some("v"), &Tags::new(), &keys);
    bad.name[0] ^= 1;
    let rows = vec![
        Ok(good.clone()),
        Ok(bad),
        Err(WalletStorageError::IOError("disk".to_string())),
        Err(WalletStorageError::ItemNotFound),
        Ok(good),
    ];
    let mut iterator = WalletIterator::new(Cursor { rows, at: 0 }, &keys);
    assert_eq!(iterator.next().unwrap().unwrap().name, "one");
    assert_eq!(iterator.next(), Err(WalletError::EncryptionError("Unable to decrypt data".to_string())));
    assert_eq!(iterator.next(), Err(WalletError::StorageError("disk".to_string())));
    assert_eq!(iterator.next(), Err(not_found()));
    assert_eq!(iterator.next().unwrap().unwrap().name, "one");
    assert_eq!(iterator.next(), Ok(None));
}

#[test]
fn row_of_a_cursor_has_no_type() {
    let keys = Keys::generate();
    let entity = encrypt_record("one", Some("t"), Some("v"), &tags_of(&[("~a", "1")]), &keys);
    let record = decrypt_row(&entity, &keys).unwrap();
    assert_eq!(record.name, "one");
    assert_eq!(record.type_, None);
    assert_eq!(record.value, Some("v".to_string()));
    assert_eq!(record.tags, Some(tags_of(&[("~a", "1")])));

    let mut broken = entity.clone();
    broken.type_ = Some(vec![1, 2, 3]);
    assert_eq!(decrypt_row(&broken, &keys).unwrap().name, "one");

    let mut no_value = entity.clone();
    no_value.value = None;
    no_value.tags = None;
    let record = decrypt_row(&no_value, &keys).unwrap();
    assert_eq!((record.value, record.tags), (None, None));

    let mut bad_key = entity;
    bad_key.value = Some(StorageValue::new(vec![0; 40], vec![0; 60]));
    assert_eq!(
        decrypt_row(&bad_key, &keys),
        Err(WalletError::EncryptionError("Unable to decrypt data".to_string()))
    );
}

#[test]
fn what_the_backend_gave_decides_the_step() {
    let keys = Keys::generate();
    assert_eq!(decrypt_fetched(Ok(None), &keys), Ok(None));
    assert_eq!(decrypt_fetched(Err(WalletStorageError::ItemNotFound), &keys), Err(not_found()));
    assert_eq!(
        decrypt_fetched(Err(WalletStorageError::ItemAlreadyExists), &keys),
        Err(WalletError::AlreadyExists("Item already exists".to_string()))
    );
    let entity = encrypt_record("one", None, None, &Tags::new(), &keys);
    assert_eq!(decrypt_fetched(Ok(Some(entity)), &keys).unwrap().unwrap().name, "one");
}

#[test]
fn what_the_backend_gave_decides_reads_and_writes() {
    let keys = Keys::generate();
    assert_eq!(finish_write(Ok(())), Ok(()));
    assert_eq!(finish_write(Err(WalletStorageError::ItemNotFound)), Err(not_found()));
    assert_eq!(
        finish_write(Err(WalletStorageError::IOError("x".to_string()))),
        Err(WalletError::StorageError("x".to_string()))
    );
    assert_eq!(finish_read(Err(WalletStorageError::ItemNotFound), &keys), Err(not_found()));
    let entity = encrypt_record("one", Some("t"), None, &Tags::new(), &keys);
    let record = finish_read(Ok(entity), &keys).unwrap();
    assert_eq!((record.name.as_str(), record.type_.as_deref()), ("one", Some("t")));
}

#[test]
fn service_starts_with_the_default_type() {
    let service = WalletService::new(MemoryType::new());
    assert!(service.is_registered("default"));
    assert!(!service.is_registered("other"));
    assert!(!service.is_registered(""));
    assert!(!service.is_wallet_open("w"));
}

#[test]
fn type_is_registered_once() {
    let mut service = WalletService::new(MemoryType::new());
    assert_eq!(service.register_type("inmem", MemoryType::new()), Ok(()));
    assert!(service.is_registered("inmem"));
    assert_eq!(
        service.register_type("inmem", MemoryType::new()),
        Err(WalletError::TypeAlreadyRegistered("inmem".to_string()))
    );
    assert_eq!(
        service.register_type("default", MemoryType::new()),
        Err(WalletError::TypeAlreadyRegistered("default".to_string()))
    );
}

#[test]
fn new_wallet_needs_a_known_type_and_a_free_name() {
    let service = WalletService::new(MemoryType::new());
    assert_eq!(service.check_new_wallet("w", None, false), Ok(()));
    assert_eq!(service.check_new_wallet("w", Some("default"), false), Ok(()));
    assert_eq!(
        service.check_new_wallet("w", Some("sql"), false),
        Err(WalletError::UnknownType("sql".to_string()))
    );
    assert_eq!(
        service.check_new_wallet("w", Some("sql"), true),
        Err(WalletError::UnknownType("sql".to_string()))
    );
    assert_eq!(service.check_new_wallet("w", None, true), Err(WalletError::AlreadyExists("w".to_string())));
}

#[test]
fn created_wallet_keeps_a_keys_blob_under_the_master_key() {
    let backend = MemoryType::new();
    let service = WalletService::new(backend.clone());
    let descriptor = service.create_wallet("pool1", "w", None, None, &credentials()).unwrap();
    assert_eq!(descriptor, WalletDescriptor::new("pool1", "default", "w"));
    let (blob, storage_credentials, _) = backend.storages.borrow().get("w").unwrap().clone();
    assert_eq!(storage_credentials, "{\"user\":\"u\"}");
    let master_key: Vec<u8> = (0..32u8).collect();
    let mut key = [0u8; 32];
    key.copy_from_slice(&master_key);
    assert!(Keys::decrypt_keys(&blob, &key).is_ok());
}

#[test]
fn wallet_is_not_created_on_bad_requests() {
    let backend = MemoryType::new();
    let service = WalletService::new(backend.clone());
    assert_eq!(
        service.create_wallet("pool1", "w", Some("sql"), None, "not json"),
        Err(WalletError::UnknownType("sql".to_string()))
    );
    assert_eq!(
        service.create_wallet("pool1", "w", None, None, "not json"),
        Err(WalletError::InputError("Credentials must be valid JSON".to_string()))
    );
    assert!(backend.storages.borrow().is_empty());
    assert!(service.create_wallet("pool1", "w", Some("default"), Some("{}"), &credentials()).is_ok());
    assert_eq!(
        service.create_wallet("pool1", "w", None, None, &credentials()),
        Err(WalletError::AlreadyExists("Item already exists".to_string()))
    );
}

#[test]
fn opened_wallets_get_increasing_handles() {
    let mut service = WalletService::new(MemoryType::new());
    let first = service.create_wallet("pool1", "w1", None, None, &credentials()).unwrap();
    let second = service.create_wallet("pool2", "w2", None, None, &credentials()).unwrap();
    assert_eq!(service.open_wallet(&first, None, &credentials()), Ok(1));
    assert_eq!(service.open_wallet(&second, None, &credentials()), Ok(2));
    assert!(service.is_wallet_open("w1"));
    assert!(service.is_wallet_open("w2"));
    assert_eq!(service.get_pool_name(1), Ok("pool1".to_string()));
    assert_eq!(service.get_pool_name(2), Ok("pool2".to_string()));
    assert_eq!(service.close_wallet(1), Ok(()));
    assert!(!service.is_wallet_open("w1"));
    assert_eq!(service.open_wallet(&first, None, &credentials()), Ok(3));
    assert_eq!(service.get_pool_name(3), Ok("pool1".to_string()));
    assert_eq!(service.get_pool_name(1), Err(WalletError::InvalidHandle("1".to_string())));
}

#[test]
fn wallet_is_not_opened_on_bad_requests() {
    let mut service = WalletService::new(MemoryType::new());
    let descriptor = service.create_wallet("pool1", "w", None, None, &credentials()).unwrap();
    assert_eq!(
        service.open_wallet(&WalletDescriptor::new("pool1", "sql", "w"), None, &credentials()),
        Err(WalletError::UnknownType("sql".to_string()))
    );
    assert_eq!(
        service.open_wallet(&descriptor, None, "[]"),
        Err(WalletError::InputError("Credentials must be JSON object".to_string()))
    );
    assert_eq!(
        service.open_wallet(&WalletDescriptor::new("pool1", "default", "none"), None, &credentials()),
        Err(not_found())
    );
    let other_storage = format!("{{\"master_key\": \"{}\", \"storage_credentials\": {{}}}}", MASTER_KEY);
    assert_eq!(
        service.open_wallet(&descriptor, None, &other_storage),
        Err(WalletError::StorageError("wrong storage credentials".to_string()))
    );
    let other_key = "{\"master_key\": \"AAAAAAAAAAAAAAAAAAAAAAAAAAAAAAAAAAAAAAAAAAA=\", \
                     \"storage_credentials\": {\"user\": \"u\"}}";
    assert_eq!(
        service.open_wallet(&descriptor, None, other_key),
        Err(WalletError::EncryptionError("Unable to decrypt wallet keys".to_string()))
    );
    assert!(!service.is_wallet_open("w"));
    assert_eq!(service.open_wallet(&descriptor, None, &credentials()), Ok(1));
    assert_eq!(
        service.open_wallet(&descriptor, None, &credentials()),
        Err(WalletError::AlreadyOpened("w".to_string()))
    );
    assert_eq!(
        service.open_wallet(&descriptor, None, "not json"),
        Err(WalletError::AlreadyOpened("w".to_string()))
    );
}

#[test]
fn records_go_through_an_open_wallet() {
    let mut service = WalletService::new(MemoryType::new());
    let descriptor = service.create_wallet("pool1", "w", None, None, &credentials()).unwrap();
    let handle = service.open_wallet(&descriptor, None, &credentials()).unwrap();
    let tags = tags_of(&[("tag1", "v1"), ("~tag2", "v2")]);
    assert_eq!(service.add_record(handle, "type", "name", "value", &tags), Ok(()));
    let record = service.get_record(handle, "type", "name", ALL).unwrap();
    assert_eq!(record.value, Some("value".to_string()));
    assert_eq!(record.tags, Some(tags));
    assert_eq!(service.get_record(handle, "type", "other", ALL), Err(not_found()));

    assert_eq!(service.close_wallet(handle), Ok(()));
    let again = service.open_wallet(&descriptor, None, &credentials()).unwrap();
    assert_eq!(service.get_record(again, "type", "name", ALL).unwrap().value, Some("value".to_string()));
}

#[test]
fn unknown_handle_is_invalid() {
    let mut service = WalletService::new(MemoryType::new());
    let invalid = |handle: &str| WalletError::InvalidHandle(handle.to_string());
    assert_eq!(service.add_record(7, "t", "n", "v", &Tags::new()), Err(invalid("7")));
    assert_eq!(service.get_record(-12, "t", "n", ALL), Err(invalid("-12")));
    assert_eq!(service.get_pool_name(0), Err(invalid("0")));
    assert_eq!(service.close_wallet(2147483647), Err(invalid("2147483647")));
    assert_eq!(service.close_wallet(-2147483648), Err(invalid("-2147483648")));
    assert_eq!(service.close_wallet(100), Err(invalid("100")));
}

#[test]
fn wallet_storage_is_deleted_by_its_type() {
    let backend = MemoryType::new();
    let service = WalletService::new(backend.clone());
    let descriptor = service.create_wallet("pool1", "w", None, None, &credentials()).unwrap();
    assert_eq!(
        service.delete_wallet(&WalletDescriptor::new("pool1", "sql", "w"), None, &credentials()),
        Err(WalletError::UnknownType("sql".to_string()))
    );
    assert_eq!(service.delete_wallet(&descriptor, None, &credentials()), Ok(()));
    assert!(backend.storages.borrow().is_empty());
    assert_eq!(service.delete_wallet(&descriptor, None, &credentials()), Err(not_found()));
}

#[test]
fn metadata_shows_a_descriptor() {
    let descriptor = WalletDescriptor::new("pool1", "default", "w");
    assert_eq!(descriptor.pool_name, "pool1");
    assert_eq!(descriptor.xtype, "default");
    assert_eq!(descriptor.name, "w");
    let metadata = WalletMetadata::from(descriptor);
    assert_eq!(
        metadata,
        WalletMetadata {
            name: "w".to_string(),
            type_: "default".to_string(),
            associated_pool_name: "pool1".to_string()
        }
    );
}

#[test]
fn wallets_are_listed_by_the_descriptors_that_were_found() {
    let service = WalletService::new(MemoryType::new());
    assert_eq!(service.list_wallets(vec![]), vec![]);
    assert_eq!(service.list_wallets(vec![None, None]), vec![]);
    let listed = service.list_wallets(vec![
        Some(WalletDescriptor::new("pool1", "default", "w1")),
        None,
        Some(WalletDescriptor::new("pool2", "inmem", "w2")),
    ]);
    assert_eq!(
        listed,
        vec![
            WalletMetadata::from(WalletDescriptor::new("pool1", "default", "w1")),
            WalletMetadata {
                name: "w2".to_string(),
                type_: "inmem".to_string(),
                associated_pool_name: "pool2".to_string()
            },
        ]
    );
}

#[test]
fn closed_handle_is_invalid_and_the_others_stay() {
    let mut service = WalletService::new(MemoryType::new());
    let first = service.create_wallet("pool1", "w1", None, None, &credentials()).unwrap();
    let second = service.create_wallet("pool2", "w2", None, None, &credentials()).unwrap();
    let h1 = service.open_wallet(&first, None, &credentials()).unwrap();
    let h2 = service.open_wallet(&second, None, &credentials()).unwrap();
    assert_ne!(h1, h2);
    assert_eq!(service.close_wallet(h1), Ok(()));
    assert_eq!(service.close_wallet(h1), Err(WalletError::InvalidHandle(h1.to_string())));
    assert_eq!(service.get_pool_name(h1), Err(WalletError::InvalidHandle(h1.to_string())));
    assert_eq!(service.get_record(h1, "t", "n", ALL), Err(WalletError::InvalidHandle(h1.to_string())));
    assert_eq!(service.get_pool_name(h2), Ok("pool2".to_string()));
    assert!(!service.is_wallet_open("w1"));
    assert!(service.is_wallet_open("w2"));
    let again = service.open_wallet(&first, None, &credentials()).unwrap();
    assert!(again != h1 && again != h2);
    assert_eq!(service.get_pool_name(again), Ok("pool1".to_string()));
}
