//! What the wallet hands to its storage backend and takes back from it, and
//! the contract of a backend. A backend holds ciphertext only and performs no
//! cryptography.

use crate::assoc::{
    covers, distinct_keys, inserted, lemma_inserted_distinct, lemma_position, lemma_same_entries, lookup, position,
    same_entries,
};
use crate::errors::WalletStorageError;
use crate::language::{Operator, TagName};
use vstd::prelude::*;

verus! {

/// The stored value of a tag: the searchable blob of the value of an
/// encrypted tag, or the value of a plain tag as it is.
#[derive(Debug, PartialEq, Eq)]
pub enum TagValue {
    Encrypted(Vec<u8>),
    Plain(String),
}

/// A stored tag value, with its bytes or characters as a sequence.
pub enum TagValueView {
    Encrypted(Seq<u8>),
    Plain(Seq<char>),
}

impl View for TagValue {
    type V = TagValueView;

    open spec fn view(&self) -> TagValueView {
        match self {
            TagValue::Encrypted(blob) => TagValueView::Encrypted(blob@),
            TagValue::Plain(text) => TagValueView::Plain(text@),
        }
    }
}

/// Whether two byte strings are equal.
pub fn same_bytes(a: &[u8], b: &[u8]) -> (same: bool)
    ensures
        same == (a@ == b@),
{
    if a.len() != b.len() {
        return false;
    }
    let mut i: usize = 0;
    while i < a.len()
        invariant
            i <= a@.len(),
            a@.len() == b@.len(),
            forall|j: int| 0 <= j < i ==> a@[j] == b@[j],
        decreases a@.len() - i,
    {
        if a[i] != b[i] {
            return false;
        }
        i += 1;
    }
    assert(a@ =~= b@);
    true
}

/// A copy of a byte string.
pub fn copy_bytes(a: &[u8]) -> (copy: Vec<u8>)
    ensures
        copy@ == a@,
{
    let mut copy: Vec<u8> = Vec::new();
    let mut i: usize = 0;
    while i < a.len()
        invariant
            i <= a@.len(),
            copy@ == a@.subrange(0, i as int),
        decreases a@.len() - i,
    {
        copy.push(a[i]);
        assert(copy@ =~= a@.subrange(0, i + 1));
        i += 1;
    }
    assert(copy@ =~= a@);
    copy
}

impl TagValue {
    /// Whether two stored tag values are the same.
    pub fn same_as(&self, other: &TagValue) -> (same: bool)
        ensures
            same == (self@ == other@),
    {
        match (self, other) {
            (TagValue::Encrypted(one), TagValue::Encrypted(two)) => same_bytes(one.as_slice(), two.as_slice()),
            (TagValue::Plain(one), TagValue::Plain(two)) => *one == *two,
            _ => false,
        }
    }
}

impl Clone for TagValue {
    fn clone(&self) -> (copy: TagValue)
        ensures
            copy@ == self@,
    {
        match self {
            TagValue::Encrypted(blob) => TagValue::Encrypted(copy_bytes(blob.as_slice())),
            TagValue::Plain(text) => TagValue::Plain(text.clone()),
        }
    }
}

/// The bytes and values of a sequence of stored tags.
pub open spec fn encrypted_tags_view(entries: Seq<(Vec<u8>, TagValue)>) -> Seq<(Seq<u8>, TagValueView)> {
    Seq::new(entries.len(), |i: int| (entries[i].0@, entries[i].1@))
}

/// The stored tags of a record: tag values under the searchable blobs of
/// their names, no blob twice, in the order in which the blobs were first
/// inserted. Two maps are `==` where they hold the same tags, in whatever
/// order.
#[derive(Debug, Eq)]
pub struct EncryptedTags {
    entries: Vec<(Vec<u8>, TagValue)>,
}

impl View for EncryptedTags {
    type V = Seq<(Seq<u8>, TagValueView)>;

    closed spec fn view(&self) -> Seq<(Seq<u8>, TagValueView)> {
        encrypted_tags_view(self.entries@)
    }
}

impl PartialEq for EncryptedTags {
    fn eq(&self, other: &EncryptedTags) -> (same: bool) {
        self.same_as(other)
    }
}

impl vstd::std_specs::cmp::PartialEqSpecImpl for EncryptedTags {
    open spec fn obeys_eq_spec() -> bool {
        true
    }

    open spec fn eq_spec(&self, other: &EncryptedTags) -> bool {
        same_entries(self@, other@)
    }
}

impl Clone for EncryptedTags {
    fn clone(&self) -> (tags: EncryptedTags)
        ensures
            tags@ == self@,
    {
        proof {
            use_type_invariant(self);
        }
        let mut entries: Vec<(Vec<u8>, TagValue)> = Vec::new();
        let mut i: usize = 0;
        while i < self.entries.len()
            invariant
                i <= self.entries@.len(),
                entries@.len() == i,
                forall|j: int|
                    0 <= j < i ==> (#[trigger] entries@[j]).0@ == self.entries@[j].0@
                        && entries@[j].1@ == self.entries@[j].1@,
            decreases self.entries@.len() - i,
        {
            let name = copy_bytes(self.entries[i].0.as_slice());
            let value = self.entries[i].1.clone();
            entries.push((name, value));
            i += 1;
        }
        assert(encrypted_tags_view(entries@) =~= encrypted_tags_view(self.entries@));
        EncryptedTags { entries }
    }
}

impl EncryptedTags {
    /// What holds of every map of stored tags: no name blob occurs twice.
    #[verifier::type_invariant]
    pub open spec fn names_differ(self) -> bool {
        distinct_keys(self@)
    }

    /// No tags.
    pub fn new() -> (tags: EncryptedTags)
        ensures
            tags@ == Seq::<(Seq<u8>, TagValueView)>::empty(),
    {
        let entries: Vec<(Vec<u8>, TagValue)> = Vec::new();
        assert(encrypted_tags_view(entries@) =~= Seq::<(Seq<u8>, TagValueView)>::empty());
        EncryptedTags { entries }
    }

    /// The number of tags.
    pub fn len(&self) -> (n: usize)
        ensures
            n == self@.len(),
    {
        self.entries.len()
    }

    /// The name blob of the tag at `index`.
    pub fn name_at(&self, index: usize) -> (name: &Vec<u8>)
        requires
            index < self@.len(),
        ensures
            name@ == self@[index as int].0,
    {
        &self.entries[index].0
    }

    /// The stored value of the tag at `index`.
    pub fn value_at(&self, index: usize) -> (value: &TagValue)
        requires
            index < self@.len(),
        ensures
            value@ == self@[index as int].1,
    {
        &self.entries[index].1
    }

    /// The index of the tag of this name blob, or the number of tags where
    /// there is none.
    pub fn find(&self, name: &[u8]) -> (at: usize)
        ensures
            at == position(self@, name@),
            at <= self@.len(),
    {
        let mut i: usize = 0;
        while i < self.entries.len()
            invariant
                i <= self.entries@.len(),
                self@.len() == self.entries@.len(),
                forall|j: int| 0 <= j < i ==> (#[trigger] self@[j]).0 != name@,
            decreases self.entries@.len() - i,
        {
            if same_bytes(self.entries[i].0.as_slice(), name) {
                proof {
                    lemma_position(self@, name@, i as int);
                }
                return i;
            }
            i += 1;
        }
        proof {
            lemma_position(self@, name@, i as int);
        }
        i
    }

    /// The stored value under this name blob, if the blob has a tag.
    pub fn get(&self, name: &[u8]) -> (value: Option<&TagValue>)
        ensures
            match value {
                Some(v) => lookup(self@, name@) == Some(v@),
                None => lookup(self@, name@) is None,
            },
    {
        let at = self.find(name);
        if at < self.entries.len() {
            Some(&self.entries[at].1)
        } else {
            None
        }
    }

    /// Whether `other` holds every tag of this map: under the name blob of
    /// each, its value.
    pub fn is_within(&self, other: &EncryptedTags) -> (within: bool)
        ensures
            within == covers(other@, self@),
    {
        let mut i: usize = 0;
        while i < self.entries.len()
            invariant
                i <= self.entries@.len(),
                self@.len() == self.entries@.len(),
                forall|j: int| 0 <= j < i ==> lookup(other@, (#[trigger] self@[j]).0) == Some(self@[j].1),
            decreases self.entries@.len() - i,
        {
            let at = other.find(self.entries[i].0.as_slice());
            if at >= other.len() {
                assert(lookup(other@, self@[i as int].0) is None);
                return false;
            }
            if !other.value_at(at).same_as(&self.entries[i].1) {
                assert(lookup(other@, self@[i as int].0) != Some(self@[i as int].1));
                return false;
            }
            i += 1;
        }
        true
    }

    /// Whether two maps of stored tags hold the same tags, in whatever order.
    pub fn same_as(&self, other: &EncryptedTags) -> (same: bool)
        ensures
            same == same_entries(self@, other@),
    {
        proof {
            use_type_invariant(self);
            use_type_invariant(other);
            lemma_same_entries(self@, other@);
        }
        self.is_within(other) && other.is_within(self)
    }

    /// Sets the tag of the name blob `name` to `value`: the value of a blob
    /// that has a tag is replaced where it stands, and a new blob is added at
    /// the end.
    pub fn insert(&mut self, name: Vec<u8>, value: TagValue)
        ensures
            final(self)@ == inserted(old(self)@, name@, value@),
    {
        proof {
            use_type_invariant(&*self);
            lemma_inserted_distinct(self@, name@, value@);
        }
        let at = self.find(name.as_slice());
        let ghost before = self@;
        let mut entries: Vec<(Vec<u8>, TagValue)> = Vec::new();
        std::mem::swap(&mut entries, &mut self.entries);
        if at < entries.len() {
            entries.set(at, (name, value));
        } else {
            entries.push((name, value));
        }
        assert(encrypted_tags_view(entries@) =~= inserted(before, name@, value@));
        self.entries = entries;
    }
}

/// The stored value of a record.
#[derive(Clone, Debug, PartialEq)]
pub struct StorageValue {
    /// The value, encrypted under the record's own key.
    pub data: Vec<u8>,
    /// The record's own key, encrypted under the wallet's value key.
    pub key: Vec<u8>,
}

/// A stored value, with its bytes as sequences.
pub struct StorageValueView {
    pub data: Seq<u8>,
    pub key: Seq<u8>,
}

impl View for StorageValue {
    type V = StorageValueView;

    open spec fn view(&self) -> StorageValueView {
        StorageValueView { data: self.data@, key: self.key@ }
    }
}

impl StorageValue {
    /// A stored value of these two blobs.
    pub fn new(data: Vec<u8>, key: Vec<u8>) -> (value: Self)
        ensures
            value.data == data,
            value.key == key,
    {
        Self { data: data, key: key }
    }
}

/// A row of the backend: a record as it is stored. A backend fills the
/// fields that the options of the request ask for.
#[derive(Clone, Debug, PartialEq)]
pub struct StorageEntity {
    /// The searchable blob of the record's name.
    pub name: Vec<u8>,
    pub value: Option<StorageValue>,
    /// The searchable blob of the record's type.
    pub type_: Option<Vec<u8>>,
    pub tags: Option<EncryptedTags>,
}

/// A row, with its bytes as sequences.
pub struct StorageEntityView {
    pub name: Seq<u8>,
    pub value: Option<StorageValueView>,
    pub type_: Option<Seq<u8>>,
    pub tags: Option<Seq<(Seq<u8>, TagValueView)>>,
}

impl View for StorageEntity {
    type V = StorageEntityView;

    open spec fn view(&self) -> StorageEntityView {
        StorageEntityView {
            name: self.name@,
            value: match self.value {
                Some(value) => Some(value@),
                None => None,
            },
            type_: match self.type_ {
                Some(type_) => Some(type_@),
                None => None,
            },
            tags: match self.tags {
                Some(tags) => Some(tags@),
                None => None,
            },
        }
    }
}

impl StorageEntity {
    /// A row of these fields.
    pub fn new(
        name: Vec<u8>,
        value: Option<StorageValue>,
        type_: Option<Vec<u8>>,
        tags: Option<EncryptedTags>,
    ) -> (entity: Self)
        ensures
            entity.name == name,
            entity.value == value,
            entity.type_ == type_,
            entity.tags == tags,
    {
        Self { name: name, value: value, type_: type_, tags: tags }
    }
}

/// A cursor over rows of a backend.
pub trait StorageIterator {
    /// The next row, or `None` after the last.
    fn next(&mut self) -> Result<Option<StorageEntity>, WalletStorageError>;
}

/// An open storage of a backend: rows of ciphertext under the searchable
/// blobs of a type and a name. A backend compares blobs byte by byte and the
/// values of plain tags as text; it decrypts nothing.
pub trait WalletStorage {
    /// The cursor that `get_all` and `search` hand out.
    type Iter: StorageIterator;

    /// The row under `type_` and `name`, with the fields that `options` asks
    /// for.
    fn get(&self, type_: &Vec<u8>, name: &Vec<u8>, options: &str) -> Result<StorageEntity, WalletStorageError>;

    /// Adds a row; `ItemAlreadyExists` where one stands under `type_` and
    /// `name`.
    fn add(
        &self,
        type_: &Vec<u8>,
        name: &Vec<u8>,
        value: &Vec<u8>,
        value_key: &Vec<u8>,
        tags: &EncryptedTags,
    ) -> Result<(), WalletStorageError>;

    /// Adds tags to a row, beside the tags that it has.
    fn add_tags(&mut self, type_: &Vec<u8>, name: &Vec<u8>, tags: &EncryptedTags) -> Result<
        (),
        WalletStorageError,
    >;

    /// Replaces the values of the tags of a row that `tags` names, and leaves
    /// its other tags.
    fn update_tags(&mut self, type_: &Vec<u8>, name: &Vec<u8>, tags: &EncryptedTags) -> Result<
        (),
        WalletStorageError,
    >;

    /// Removes the tags of a row that `tag_names` names.
    fn delete_tags(&mut self, type_: &Vec<u8>, name: &Vec<u8>, tag_names: &[TagName]) -> Result<
        (),
        WalletStorageError,
    >;

    /// Replaces the value of a row; `ItemNotFound` where none stands under
    /// `type_` and `name`.
    fn update(&self, type_: &Vec<u8>, name: &Vec<u8>, value: &Vec<u8>, value_key: &Vec<u8>) -> Result<
        (),
        WalletStorageError,
    >;

    /// Removes a row.
    fn delete(&self, type_: &Vec<u8>, name: &Vec<u8>) -> Result<(), WalletStorageError>;

    /// All rows.
    fn get_all(&self) -> Result<Self::Iter, WalletStorageError>;

    /// The rows under `type_` that meet `query`, a query over stored tags.
    fn search(&self, type_: &Vec<u8>, query: &Operator, options: &str) -> Result<
        Self::Iter,
        WalletStorageError,
    >;

    /// Removes all rows.
    fn clear(&self) -> Result<(), WalletStorageError>;

    /// Releases the storage.
    fn close(&mut self) -> Result<(), WalletStorageError>;
}

/// A kind of backend: it creates, opens and deletes storages by name.
pub trait WalletStorageType {
    /// The storage that `open_storage` hands out.
    type Storage: WalletStorage;

    /// Creates a storage and keeps `keys`, the keys blob of the wallet, in it.
    fn create_storage(&self, name: &str, config: Option<&str>, credentials: &str, keys: &Vec<u8>) -> Result<
        (),
        WalletStorageError,
    >;

    /// Opens a storage, and hands back the keys blob kept in it as it was
    /// given.
    fn open_storage(&self, name: &str, config: Option<&str>, credentials: &str) -> Result<
        (Self::Storage, Vec<u8>),
        WalletStorageError,
    >;

    /// Deletes a storage.
    fn delete_storage(&self, name: &str, config: Option<&str>, credentials: &str) -> Result<
        (),
        WalletStorageError,
    >;
}

} // verus!
