//! What the caller of a wallet sees: tag maps, records and the wallet's keys.

use crate::assoc::{
    covers, distinct_keys, inserted, lemma_inserted_distinct, lemma_position, lemma_same_entries, lookup, position,
    same_entries,
};
use crate::crypto::{create_key, decrypt, decrypted, encrypt_as_not_searchable, is_blob_of, key_at, Key, KEY_LEN};
use crate::crypto::encrypt_as_searchable;
use crate::encryption::{
    decrypt_storage_record, decrypted_record, encrypt_record, encrypt_tag_names, encrypt_tags, encrypt_value,
    sealable_tags, sealable_text, searchable_text,
};
use crate::errors::{storage_failure, text, Failure, StorageFailure, WalletError, WalletStorageError};
use crate::iterator::WalletIterator;
use crate::language::Operator;
use crate::query_encryption::{encrypt_query, plain_query};
use crate::storage::{StorageEntity, StorageEntityView, WalletStorage};
use vstd::prelude::*;

verus! {

/// The tags of a record: values under names, no name twice, in the order in
/// which the names were first inserted. A name that begins with `~` marks a
/// plain tag, whose value is stored unencrypted. Two tag maps are `==` where
/// they hold the same tags, in whatever order.
#[derive(Debug, Eq)]
pub struct Tags {
    entries: Vec<(String, String)>,
}

/// The characters of the names and values of a sequence of tags.
pub open spec fn tags_view(entries: Seq<(String, String)>) -> Seq<(Seq<char>, Seq<char>)> {
    Seq::new(entries.len(), |i: int| (entries[i].0@, entries[i].1@))
}

impl View for Tags {
    type V = Seq<(Seq<char>, Seq<char>)>;

    closed spec fn view(&self) -> Seq<(Seq<char>, Seq<char>)> {
        tags_view(self.entries@)
    }
}

impl PartialEq for Tags {
    fn eq(&self, other: &Tags) -> (same: bool) {
        self.same_as(other)
    }
}

impl vstd::std_specs::cmp::PartialEqSpecImpl for Tags {
    open spec fn obeys_eq_spec() -> bool {
        true
    }

    open spec fn eq_spec(&self, other: &Tags) -> bool {
        same_entries(self@, other@)
    }
}

impl Clone for Tags {
    fn clone(&self) -> (tags: Tags)
        ensures
            tags@ == self@,
    {
        proof {
            use_type_invariant(self);
        }
        let mut entries: Vec<(String, String)> = Vec::new();
        let mut i: usize = 0;
        while i < self.entries.len()
            invariant
                i <= self.entries@.len(),
                entries@.len() == i,
                forall|j: int|
                    0 <= j < i ==> (#[trigger] entries@[j]).0@ == self.entries@[j].0@
                        && entries@[j].1@ == self.entries@[j].1@,
            decreases self.entries@.len() - i,
        {
            let name = self.entries[i].0.clone();
            let value = self.entries[i].1.clone();
            entries.push((name, value));
            i += 1;
        }
        assert(tags_view(entries@) =~= tags_view(self.entries@));
        Tags { entries }
    }
}

impl Tags {
    /// What holds of every tag map: no name occurs twice.
    #[verifier::type_invariant]
    pub open spec fn names_differ(self) -> bool {
        distinct_keys(self@)
    }

    /// No tags.
    pub fn new() -> (tags: Tags)
        ensures
            tags@ == Seq::<(Seq<char>, Seq<char>)>::empty(),
    {
        let entries: Vec<(String, String)> = Vec::new();
        assert(tags_view(entries@) =~= Seq::<(Seq<char>, Seq<char>)>::empty());
        Tags { entries }
    }

    /// The number of tags.
    pub fn len(&self) -> (n: usize)
        ensures
            n == self@.len(),
    {
        self.entries.len()
    }

    /// The name of the tag at `index`.
    pub fn name_at(&self, index: usize) -> (name: &String)
        requires
            index < self@.len(),
        ensures
            name@ == self@[index as int].0,
    {
        &self.entries[index].0
    }

    /// The value of the tag at `index`.
    pub fn value_at(&self, index: usize) -> (value: &String)
        requires
            index < self@.len(),
        ensures
            value@ == self@[index as int].1,
    {
        &self.entries[index].1
    }

    /// The index of the tag of this name, or the number of tags where there
    /// is none.
    pub fn find(&self, name: &String) -> (at: usize)
        ensures
            at == position(self@, name@),
            at <= self@.len(),
    {
        let mut i: usize = 0;
        while i < self.entries.len()
            invariant
                i <= self.entries@.len(),
                self@.len() == self.entries@.len(),
                forall|j: int| 0 <= j < i ==> (#[trigger] self@[j]).0 != name@,
            decreases self.entries@.len() - i,
        {
            if self.entries[i].0 == *name {
                proof {
                    lemma_position(self@, name@, i as int);
                }
                return i;
            }
            i += 1;
        }
        proof {
            lemma_position(self@, name@, i as int);
        }
        i
    }

    /// The value under `name`, if the name has a tag.
    pub fn get(&self, name: &String) -> (value: Option<&String>)
        ensures
            match value {
                Some(v) => lookup(self@, name@) == Some(v@),
                None => lookup(self@, name@) is None,
            },
    {
        let at = self.find(name);
        if at < self.entries.len() {
            Some(&self.entries[at].1)
        } else {
            None
        }
    }

    /// Whether `other` holds every tag of this map: under the name of each,
    /// its value.
    pub fn is_within(&self, other: &Tags) -> (within: bool)
        ensures
            within == covers(other@, self@),
    {
        let mut i: usize = 0;
        while i < self.entries.len()
            invariant
                i <= self.entries@.len(),
                self@.len() == self.entries@.len(),
                forall|j: int| 0 <= j < i ==> lookup(other@, (#[trigger] self@[j]).0) == Some(self@[j].1),
            decreases self.entries@.len() - i,
        {
            let at = other.find(&self.entries[i].0);
            if at >= other.len() {
                assert(lookup(other@, self@[i as int].0) is None);
                return false;
            }
            if *other.value_at(at) != self.entries[i].1 {
                assert(lookup(other@, self@[i as int].0) != Some(self@[i as int].1));
                return false;
            }
            i += 1;
        }
        true
    }

    /// Whether two tag maps hold the same tags, in whatever order.
    pub fn same_as(&self, other: &Tags) -> (same: bool)
        ensures
            same == same_entries(self@, other@),
    {
        proof {
            use_type_invariant(self);
            use_type_invariant(other);
            lemma_same_entries(self@, other@);
        }
        self.is_within(other) && other.is_within(self)
    }

    /// Sets the tag `name` to `value`: the value of a name that has a tag is
    /// replaced where it stands, and a new name is added at the end.
    pub fn insert(&mut self, name: String, value: String)
        ensures
            final(self)@ == inserted(old(self)@, name@, value@),
    {
        proof {
            use_type_invariant(&*self);
            lemma_inserted_distinct(self@, name@, value@);
        }
        let at = self.find(&name);
        let ghost before = self@;
        let mut entries: Vec<(String, String)> = Vec::new();
        std::mem::swap(&mut entries, &mut self.entries);
        if at < entries.len() {
            entries.set(at, (name, value));
        } else {
            entries.push((name, value));
        }
        assert(tags_view(entries@) =~= inserted(before, name@, value@));
        self.entries = entries;
    }
}

/// Number of keys that a wallet holds.
pub const KEY_COUNT: usize = 7;

/// Length in bytes of a wallet's keys written one after the other.
pub const KEYS_LEN: usize = 224;

/// Length in bytes of a wallet's keys encrypted under the master key.
pub const ENCRYPTED_KEYS_LEN: usize = 252;

/// The keys of a wallet. Names and types are encrypted under their own keys
/// with nonces derived under `item_hmac_key`; tag names and tag values under
/// theirs with nonces derived under `tags_hmac_key`; `value_key` wraps the
/// key of each record's value. The keys are not printable, so that they do
/// not find their way into a log.
#[derive(Clone, PartialEq, Eq)]
pub struct Keys {
    pub name_key: Key,
    pub value_key: Key,
    pub type_key: Key,
    pub tag_name_key: Key,
    pub tag_value_key: Key,
    pub item_hmac_key: Key,
    pub tags_hmac_key: Key,
}

/// The keys of a wallet, each as a sequence of bytes.
pub struct KeysView {
    pub name_key: Seq<u8>,
    pub value_key: Seq<u8>,
    pub type_key: Seq<u8>,
    pub tag_name_key: Seq<u8>,
    pub tag_value_key: Seq<u8>,
    pub item_hmac_key: Seq<u8>,
    pub tags_hmac_key: Seq<u8>,
}

impl View for Keys {
    type V = KeysView;

    open spec fn view(&self) -> KeysView {
        KeysView {
            name_key: self.name_key@,
            value_key: self.value_key@,
            type_key: self.type_key@,
            tag_name_key: self.tag_name_key@,
            tag_value_key: self.tag_value_key@,
            item_hmac_key: self.item_hmac_key@,
            tags_hmac_key: self.tags_hmac_key@,
        }
    }
}

impl KeysView {
    /// Whether each key has the length of a key.
    pub open spec fn wf(self) -> bool {
        &&& self.name_key.len() == KEY_LEN
        &&& self.value_key.len() == KEY_LEN
        &&& self.type_key.len() == KEY_LEN
        &&& self.tag_name_key.len() == KEY_LEN
        &&& self.tag_value_key.len() == KEY_LEN
        &&& self.item_hmac_key.len() == KEY_LEN
        &&& self.tags_hmac_key.len() == KEY_LEN
    }
}

/// The bytes of a wallet's keys: the seven keys one after the other.
pub open spec fn keys_bytes(keys: KeysView) -> Seq<u8> {
    keys.name_key + keys.value_key + keys.type_key + keys.tag_name_key + keys.tag_value_key
        + keys.item_hmac_key + keys.tags_hmac_key
}

/// The keys that the first `KEYS_LEN` bytes of `bytes` hold.
pub open spec fn keys_of_bytes(bytes: Seq<u8>) -> KeysView {
    KeysView {
        name_key: bytes.subrange(0, 32),
        value_key: bytes.subrange(32, 64),
        type_key: bytes.subrange(64, 96),
        tag_name_key: bytes.subrange(96, 128),
        tag_value_key: bytes.subrange(128, 160),
        item_hmac_key: bytes.subrange(160, 192),
        tags_hmac_key: bytes.subrange(192, 224),
    }
}

/// Keys that are overwritten with zeros.
pub open spec fn zeroed_keys() -> KeysView {
    let zero = Seq::new(KEY_LEN as nat, |i: int| 0u8);
    KeysView {
        name_key: zero,
        value_key: zero,
        type_key: zero,
        tag_name_key: zero,
        tag_value_key: zero,
        item_hmac_key: zero,
        tags_hmac_key: zero,
    }
}

/// The text of the failure to decrypt a wallet's keys.
pub open spec fn keys_rejected() -> Seq<char> {
    "Unable to decrypt wallet keys"@
}

/// What the keys blob of a wallet holds under `master_key`: the keys, or an
/// `EncryptionError` where the blob is rejected or holds fewer bytes than
/// seven keys.
pub open spec fn decrypted_keys(blob: Seq<u8>, master_key: Seq<u8>) -> Result<KeysView, Failure> {
    match decrypted(blob, master_key) {
        Some(bytes) if bytes.len() >= KEYS_LEN => Ok(keys_of_bytes(bytes)),
        _ => Err(Failure::EncryptionError(keys_rejected())),
    }
}

/// Reading keys back from their bytes gives the same keys.
pub proof fn lemma_keys_bytes_round_trip(keys: KeysView)
    requires
        keys.wf(),
    ensures
        keys_bytes(keys).len() == KEYS_LEN,
        keys_of_bytes(keys_bytes(keys)) == keys,
{
    let bytes = keys_bytes(keys);
    let back = keys_of_bytes(bytes);
    assert(back.name_key =~= keys.name_key);
    assert(back.value_key =~= keys.value_key);
    assert(back.type_key =~= keys.type_key);
    assert(back.tag_name_key =~= keys.tag_name_key);
    assert(back.tag_value_key =~= keys.tag_value_key);
    assert(back.item_hmac_key =~= keys.item_hmac_key);
    assert(back.tags_hmac_key =~= keys.tags_hmac_key);
}

/// Appends the bytes of `key` to `bytes`.
fn push_key(bytes: &mut Vec<u8>, key: &Key)
    ensures
        final(bytes)@ == old(bytes)@ + key@,
{
    let ghost before = bytes@;
    let mut i: usize = 0;
    while i < KEY_LEN
        invariant
            i <= KEY_LEN,
            bytes@ == before + key@.subrange(0, i as int),
        decreases KEY_LEN - i,
    {
        bytes.push(key[i]);
        assert(bytes@ =~= before + key@.subrange(0, i + 1));
        i += 1;
    }
    assert(key@.subrange(0, KEY_LEN as int) =~= key@);
}

impl Keys {
    /// The keys that the first `KEYS_LEN` bytes of `keys_vector` hold.
    pub fn new(keys_vector: Vec<u8>) -> (keys: Keys)
        requires
            keys_vector@.len() >= KEYS_LEN,
        ensures
            keys@ == keys_of_bytes(keys_vector@),
    {
        let bytes = keys_vector.as_slice();
        Keys {
            name_key: key_at(bytes, 0),
            value_key: key_at(bytes, 32),
            type_key: key_at(bytes, 64),
            tag_name_key: key_at(bytes, 96),
            tag_value_key: key_at(bytes, 128),
            item_hmac_key: key_at(bytes, 160),
            tags_hmac_key: key_at(bytes, 192),
        }
    }

    /// Seven fresh random keys.
    pub fn generate() -> (keys: Keys) {
        Keys {
            name_key: create_key(),
            value_key: create_key(),
            type_key: create_key(),
            tag_name_key: create_key(),
            tag_value_key: create_key(),
            item_hmac_key: create_key(),
            tags_hmac_key: create_key(),
        }
    }

    /// Overwrites every key with zeros.
    pub fn zeroize(&mut self)
        ensures
            final(self)@ == zeroed_keys(),
    {
        let zero: Key = [0u8; 32];
        assert(zero@ =~= Seq::new(KEY_LEN as nat, |i: int| 0u8));
        self.name_key = zero;
        self.value_key = zero;
        self.type_key = zero;
        self.tag_name_key = zero;
        self.tag_value_key = zero;
        self.item_hmac_key = zero;
        self.tags_hmac_key = zero;
    }

    /// The seven keys one after the other.
    pub fn to_bytes(&self) -> (bytes: Vec<u8>)
        ensures
            bytes@ == keys_bytes(self@),
            bytes@.len() == KEYS_LEN,
    {
        let mut bytes: Vec<u8> = Vec::new();
        push_key(&mut bytes, &self.name_key);
        push_key(&mut bytes, &self.value_key);
        push_key(&mut bytes, &self.type_key);
        push_key(&mut bytes, &self.tag_name_key);
        push_key(&mut bytes, &self.tag_value_key);
        push_key(&mut bytes, &self.item_hmac_key);
        push_key(&mut bytes, &self.tags_hmac_key);
        assert(bytes@ =~= keys_bytes(self@));
        bytes
    }

    /// The keys blob of these keys: their bytes, encrypted under
    /// `master_key` with a fresh nonce. A storage backend keeps the blob and
    /// hands it back when the wallet is opened.
    pub fn encrypt(&self, master_key: &Key) -> (blob: Vec<u8>)
        ensures
            is_blob_of(blob@, keys_bytes(self@), master_key@),
            blob@.len() == ENCRYPTED_KEYS_LEN,
            decrypted_keys(blob@, master_key@) == Ok::<KeysView, Failure>(self@),
    {
        let bytes = self.to_bytes();
        proof {
            lemma_keys_bytes_round_trip(self@);
        }
        encrypt_as_not_searchable(bytes.as_slice(), master_key)
    }

    /// The keys blob of seven fresh random keys under `master_key`.
    pub fn gen_keys(master_key: Key) -> (blob: Vec<u8>)
        ensures
            blob@.len() == ENCRYPTED_KEYS_LEN,
            decrypted_keys(blob@, master_key@) is Ok,
            decrypted_keys(blob@, master_key@)->Ok_0.wf(),
    {
        let keys = Keys::generate();
        keys.encrypt(&master_key)
    }

    /// Reads a wallet's keys from its keys blob.
    pub fn decrypt_keys(blob: &[u8], master_key: &Key) -> (r: Result<Keys, WalletError>)
        ensures
            match r {
                Ok(keys) => decrypted_keys(blob@, master_key@) == Ok::<KeysView, Failure>(keys@),
                Err(e) => decrypted_keys(blob@, master_key@) == Err::<KeysView, Failure>(e@),
            },
    {
        match decrypt(blob, master_key) {
            Ok(bytes) => {
                if bytes.len() >= KEYS_LEN {
                    Ok(Keys::new(bytes))
                } else {
                    Err(WalletError::EncryptionError(text("Unable to decrypt wallet keys")))
                }
            },
            Err(_) => Err(WalletError::EncryptionError(text("Unable to decrypt wallet keys"))),
        }
    }
}

/// A record as its owner sees it.
#[derive(Debug, Clone, PartialEq, Eq)]
pub struct WalletRecord {
    pub name: String,
    pub type_: Option<String>,
    pub value: Option<String>,
    pub tags: Option<Tags>,
}

/// A record, with its texts as sequences of characters.
pub struct WalletRecordView {
    pub name: Seq<char>,
    pub type_: Option<Seq<char>>,
    pub value: Option<Seq<char>>,
    pub tags: Option<Seq<(Seq<char>, Seq<char>)>>,
}

/// The characters of an optional text.
pub open spec fn text_of(text: Option<String>) -> Option<Seq<char>> {
    match text {
        Some(text) => Some(text@),
        None => None,
    }
}

impl View for WalletRecord {
    type V = WalletRecordView;

    open spec fn view(&self) -> WalletRecordView {
        WalletRecordView {
            name: self.name@,
            type_: text_of(self.type_),
            value: text_of(self.value),
            tags: match self.tags {
                Some(tags) => Some(tags@),
                None => None,
            },
        }
    }
}

impl WalletRecord {
    /// A record of these fields.
    pub fn new(name: String, type_: Option<String>, value: Option<String>, tags: Option<Tags>) -> (record:
        WalletRecord)
        ensures
            record.name == name,
            record.type_ == type_,
            record.value == value,
            record.tags == tags,
    {
        WalletRecord { name: name, type_: type_, value: value, tags: tags }
    }
}

/// What a write gives for what the backend gave: success as it is, and the
/// failure of the backend as the wallet reports it.
pub open spec fn write_outcome(stored: Result<(), StorageFailure>) -> Result<(), Failure> {
    match stored {
        Ok(()) => Ok(()),
        Err(failure) => Err(storage_failure(failure)),
    }
}

/// What a read gives for what the backend gave: the record that the row
/// holds, the failure to decrypt it, or the failure of the backend as the
/// wallet reports it.
pub open spec fn read_outcome(fetched: Result<StorageEntityView, StorageFailure>, keys: KeysView) -> Result<
    WalletRecordView,
    Failure,
> {
    match fetched {
        Ok(entity) => decrypted_record(entity, keys),
        Err(failure) => Err(storage_failure(failure)),
    }
}

/// The view of what a backend gave to a write.
pub open spec fn stored_view(stored: Result<(), WalletStorageError>) -> Result<(), StorageFailure> {
    match stored {
        Ok(()) => Ok(()),
        Err(e) => Err(e@),
    }
}

/// The view of what a write gave.
pub open spec fn written_view(written: Result<(), WalletError>) -> Result<(), Failure> {
    match written {
        Ok(()) => Ok(()),
        Err(e) => Err(e@),
    }
}

/// The view of what a backend gave to a read.
pub open spec fn got_view(fetched: Result<StorageEntity, WalletStorageError>) -> Result<
    StorageEntityView,
    StorageFailure,
> {
    match fetched {
        Ok(entity) => Ok(entity@),
        Err(e) => Err(e@),
    }
}

/// The view of what a read gave.
pub open spec fn read_view(read: Result<WalletRecord, WalletError>) -> Result<WalletRecordView, Failure> {
    match read {
        Ok(record) => Ok(record@),
        Err(e) => Err(e@),
    }
}

/// What the wallet reports for what the backend gave to a write.
pub fn finish_write(stored: Result<(), WalletStorageError>) -> (written: Result<(), WalletError>)
    ensures
        written_view(written) == write_outcome(stored_view(stored)),
{
    match stored {
        Ok(()) => Ok(()),
        Err(e) => Err(WalletError::from_storage(e)),
    }
}

/// What the wallet reports for what the backend gave to a read.
pub fn finish_read(fetched: Result<StorageEntity, WalletStorageError>, keys: &Keys) -> (read: Result<
    WalletRecord,
    WalletError,
>)
    ensures
        read_view(read) == read_outcome(got_view(fetched), keys@),
{
    match fetched {
        Ok(entity) => decrypt_storage_record(&entity, keys),
        Err(e) => Err(WalletError::from_storage(e)),
    }
}

/// The searchable blob of the type of a record.
pub fn encrypt_type(type_: &str, keys: &Keys) -> (blob: Vec<u8>)
    requires
        sealable_text(type_@),
    ensures
        blob@ == searchable_text(type_@, keys.type_key@, keys.item_hmac_key@),
{
    encrypt_as_searchable(type_.as_bytes(), &keys.type_key, &keys.item_hmac_key)
}

/// The searchable blob of the name of a record.
pub fn encrypt_name(name: &str, keys: &Keys) -> (blob: Vec<u8>)
    requires
        sealable_text(name@),
    ensures
        blob@ == searchable_text(name@, keys.name_key@, keys.item_hmac_key@),
{
    encrypt_as_searchable(name.as_bytes(), &keys.name_key, &keys.item_hmac_key)
}

/// An open wallet: a storage of a backend and the keys that its rows are
/// encrypted under. Each request is encrypted, handed to the storage, and
/// what the storage gives is decrypted.
pub struct Wallet<S: WalletStorage> {
    name: String,
    pool_name: String,
    storage: S,
    keys: Keys,
}

impl<S: WalletStorage> Wallet<S> {
    /// The keys of the wallet.
    pub closed spec fn keys(&self) -> Keys {
        self.keys
    }

    /// The name of the wallet.
    pub closed spec fn name(&self) -> Seq<char> {
        self.name@
    }

    /// The name of the pool that the wallet belongs to.
    pub closed spec fn pool_name(&self) -> Seq<char> {
        self.pool_name@
    }

    /// The wallet `name` of the pool `pool_name`, with its open storage and
    /// its keys.
    pub fn new(name: &str, pool_name: &str, storage: S, keys: Keys) -> (wallet: Self)
        ensures
            wallet.name() == name@,
            wallet.pool_name() == pool_name@,
            wallet.keys() == keys,
    {
        Wallet { name: text(name), pool_name: text(pool_name), storage: storage, keys: keys }
    }

    /// The name of the wallet.
    pub fn get_name(&self) -> (name: String)
        ensures
            name@ == self.name(),
    {
        self.name.clone()
    }

    /// The name of the pool that the wallet belongs to.
    pub fn get_pool_name(&self) -> (pool_name: String)
        ensures
            pool_name@ == self.pool_name(),
    {
        self.pool_name.clone()
    }

    /// Whether the wallet has this name.
    pub fn has_name(&self, name: &str) -> (same: bool)
        ensures
            same == (self.name() == name@),
    {
        self.name == text(name)
    }

    /// Adds a record: encrypts it as `encrypt_record` has it and hands the
    /// row to the storage.
    pub fn add(&self, type_: &str, name: &str, value: &str, tags: &Tags) -> (written: Result<(), WalletError>)
        requires
            sealable_text(type_@),
            sealable_text(name@),
            sealable_text(value@),
            sealable_tags(tags@),
        ensures
            exists|stored: Result<(), WalletStorageError>|
                written_view(written) == write_outcome(#[trigger] stored_view(stored)),
    {
        let entity = encrypt_record(name, Some(type_), Some(value), tags, &self.keys);
        match (&entity.type_, &entity.value, &entity.tags) {
            (Some(etype), Some(evalue), Some(etags)) => {
                let stored = self.storage.add(etype, &entity.name, &evalue.data, &evalue.key, etags);
                let ghost given = stored;
                let written = finish_write(stored);
                assert(written_view(written) == write_outcome(stored_view(given)));
                written
            },
            _ => {
                assert(false);
                Ok(())
            },
        }
    }

    /// The record under a type and a name: asks the storage for the row under
    /// their searchable blobs and decrypts it.
    pub fn get(&self, type_: &str, name: &str, options: &str) -> (read: Result<WalletRecord, WalletError>)
        requires
            sealable_text(type_@),
            sealable_text(name@),
        ensures
            exists|fetched: Result<StorageEntity, WalletStorageError>|
                read_view(read) == read_outcome(#[trigger] got_view(fetched), self.keys()@),
    {
        let etype = encrypt_type(type_, &self.keys);
        let ename = encrypt_name(name, &self.keys);
        let fetched = self.storage.get(&etype, &ename, options);
        let ghost given = fetched;
        let read = finish_read(fetched, &self.keys);
        assert(read_view(read) == read_outcome(got_view(given), self.keys()@));
        read
    }

    /// Replaces the value of a record: encrypts the value under a fresh
    /// record key and hands the envelope to the storage.
    pub fn update(&self, type_: &str, name: &str, value: &str) -> (written: Result<(), WalletError>)
        requires
            sealable_text(type_@),
            sealable_text(name@),
            sealable_text(value@),
        ensures
            exists|stored: Result<(), WalletStorageError>|
                written_view(written) == write_outcome(#[trigger] stored_view(stored)),
    {
        let etype = encrypt_type(type_, &self.keys);
        let ename = encrypt_name(name, &self.keys);
        let evalue = encrypt_value(value, &self.keys.value_key);
        let stored = self.storage.update(&etype, &ename, &evalue.data, &evalue.key);
        let ghost given = stored;
        let written = finish_write(stored);
        assert(written_view(written) == write_outcome(stored_view(given)));
        written
    }

    /// Adds tags to a record.
    pub fn add_tags(&mut self, type_: &str, name: &str, tags: &Tags) -> (written: Result<(), WalletError>)
        requires
            sealable_text(type_@),
            sealable_text(name@),
            sealable_tags(tags@),
        ensures
            final(self).keys() == old(self).keys(),
            final(self).name() == old(self).name(),
            final(self).pool_name() == old(self).pool_name(),
            exists|stored: Result<(), WalletStorageError>|
                written_view(written) == write_outcome(#[trigger] stored_view(stored)),
    {
        let etype = encrypt_type(type_, &self.keys);
        let ename = encrypt_name(name, &self.keys);
        let etags = encrypt_tags(tags, &self.keys.tag_name_key, &self.keys.tag_value_key, &self.keys.tags_hmac_key);
        let stored = self.storage.add_tags(&etype, &ename, &etags);
        let ghost given = stored;
        let written = finish_write(stored);
        assert(written_view(written) == write_outcome(stored_view(given)));
        written
    }

    /// Replaces the values of tags of a record.
    pub fn update_tags(&mut self, type_: &str, name: &str, tags: &Tags) -> (written: Result<(), WalletError>)
        requires
            sealable_text(type_@),
            sealable_text(name@),
            sealable_tags(tags@),
        ensures
            final(self).keys() == old(self).keys(),
            final(self).name() == old(self).name(),
            final(self).pool_name() == old(self).pool_name(),
            exists|stored: Result<(), WalletStorageError>|
                written_view(written) == write_outcome(#[trigger] stored_view(stored)),
    {
        let etype = encrypt_type(type_, &self.keys);
        let ename = encrypt_name(name, &self.keys);
        let etags = encrypt_tags(tags, &self.keys.tag_name_key, &self.keys.tag_value_key, &self.keys.tags_hmac_key);
        let stored = self.storage.update_tags(&etype, &ename, &etags);
        let ghost given = stored;
        let written = finish_write(stored);
        assert(written_view(written) == write_outcome(stored_view(given)));
        written
    }

    /// Removes the tags of these names from a record.
    pub fn delete_tags(&mut self, type_: &str, name: &str, tag_names: &[String]) -> (written: Result<
        (),
        WalletError,
    >)
        requires
            sealable_text(type_@),
            sealable_text(name@),
            forall|i: int| 0 <= i < tag_names@.len() ==> sealable_text(#[trigger] tag_names@[i]@),
        ensures
            final(self).keys() == old(self).keys(),
            final(self).name() == old(self).name(),
            final(self).pool_name() == old(self).pool_name(),
            exists|stored: Result<(), WalletStorageError>|
                written_view(written) == write_outcome(#[trigger] stored_view(stored)),
    {
        let etype = encrypt_type(type_, &self.keys);
        let ename = encrypt_name(name, &self.keys);
        let enames = encrypt_tag_names(tag_names, &self.keys.tag_name_key, &self.keys.tags_hmac_key);
        let stored = self.storage.delete_tags(&etype, &ename, enames.as_slice());
        let ghost given = stored;
        let written = finish_write(stored);
        assert(written_view(written) == write_outcome(stored_view(given)));
        written
    }

    /// Removes a record.
    pub fn delete(&self, type_: &str, name: &str) -> (written: Result<(), WalletError>)
        requires
            sealable_text(type_@),
            sealable_text(name@),
        ensures
            exists|stored: Result<(), WalletStorageError>|
                written_view(written) == write_outcome(#[trigger] stored_view(stored)),
    {
        let etype = encrypt_type(type_, &self.keys);
        let ename = encrypt_name(name, &self.keys);
        let stored = self.storage.delete(&etype, &ename);
        let ghost given = stored;
        let written = finish_write(stored);
        assert(written_view(written) == write_outcome(stored_view(given)));
        written
    }

    /// The records of a type that meet a query: rewrites the query as
    /// `encrypt_query` has it, hands it to the storage, and decrypts the rows
    /// of the cursor that comes back as they are asked for.
    pub fn search<'a>(&'a self, type_: &str, query: Operator, options: &str) -> (found: Result<
        WalletIterator<'a, S::Iter>,
        WalletError,
    >)
        requires
            sealable_text(type_@),
            plain_query(query@),
        ensures
            match found {
                Ok(iterator) => iterator.keys() == self.keys(),
                Err(e) => exists|failure: StorageFailure| e@ == #[trigger] storage_failure(failure),
            },
    {
        let etype = encrypt_type(type_, &self.keys);
        let equery = encrypt_query(query, &self.keys);
        match self.storage.search(&etype, &equery, options) {
            Ok(cursor) => Ok(WalletIterator::new(cursor, &self.keys)),
            Err(e) => {
                let ghost failure = e@;
                let err = WalletError::from_storage(e);
                assert(err@ == storage_failure(failure));
                Err(err)
            },
        }
    }

    /// All records, decrypted as they are asked for.
    pub fn get_all<'a>(&'a self) -> (found: Result<WalletIterator<'a, S::Iter>, WalletError>)
        ensures
            match found {
                Ok(iterator) => iterator.keys() == self.keys(),
                Err(e) => exists|failure: StorageFailure| e@ == #[trigger] storage_failure(failure),
            },
    {
        match self.storage.get_all() {
            Ok(cursor) => Ok(WalletIterator::new(cursor, &self.keys)),
            Err(e) => {
                let ghost failure = e@;
                let err = WalletError::from_storage(e);
                assert(err@ == storage_failure(failure));
                Err(err)
            },
        }
    }

    /// Releases the storage and overwrites the keys of the wallet with
    /// zeros.
    pub fn close(&mut self) -> (written: Result<(), WalletError>)
        ensures
            final(self).keys()@ == zeroed_keys(),
            final(self).name() == old(self).name(),
            final(self).pool_name() == old(self).pool_name(),
            exists|stored: Result<(), WalletStorageError>|
                written_view(written) == write_outcome(#[trigger] stored_view(stored)),
    {
        let stored = self.storage.close();
        self.keys.zeroize();
        let ghost given = stored;
        let written = finish_write(stored);
        assert(written_view(written) == write_outcome(stored_view(given)));
        written
    }
}

} // verus!
