//! The records behind a cursor of a backend, decrypted one by one.

use crate::encryption::{
    data_rejected, decrypt_optional_value, decrypt_tags, decrypt_text, decrypted_optional_tags,
    decrypted_optional_value, decrypted_text,
};
use crate::errors::{storage_failure, Failure, StorageFailure, WalletError, WalletStorageError};
use crate::storage::{StorageEntity, StorageEntityView, StorageIterator};
use crate::wallet::{Keys, KeysView, WalletRecord, WalletRecordView};
use vstd::prelude::*;

verus! {

/// The record that a row of a cursor holds: its name, value and tags, and no
/// type. The name is read first, then the value, then the tags; the first
/// that fails gives the failure.
pub open spec fn decrypted_row(entity: StorageEntityView, keys: KeysView) -> Result<WalletRecordView, Failure> {
    match decrypted_text(entity.name, keys.name_key, data_rejected()) {
        Err(failure) => Err(failure),
        Ok(name) => match decrypted_optional_value(entity.value, keys.value_key) {
            Err(failure) => Err(failure),
            Ok(value) => match decrypted_optional_tags(entity.tags, keys.tag_name_key, keys.tag_value_key) {
                Err(failure) => Err(failure),
                Ok(tags) => Ok(WalletRecordView { name: name, type_: None, value: value, tags: tags }),
            },
        },
    }
}

/// What a step of the iterator gives for what its cursor gave: the failure
/// of the backend as the wallet reports it, the end after the last row, and
/// for a row the record that it holds or the failure to decrypt it.
pub open spec fn step_outcome(
    fetched: Result<Option<StorageEntityView>, StorageFailure>,
    keys: KeysView,
) -> Result<Option<WalletRecordView>, Failure> {
    match fetched {
        Err(failure) => Err(storage_failure(failure)),
        Ok(None) => Ok(None),
        Ok(Some(entity)) => match decrypted_row(entity, keys) {
            Err(failure) => Err(failure),
            Ok(record) => Ok(Some(record)),
        },
    }
}

/// The view of what a cursor gave.
pub open spec fn fetched_view(fetched: Result<Option<StorageEntity>, WalletStorageError>) -> Result<
    Option<StorageEntityView>,
    StorageFailure,
> {
    match fetched {
        Err(e) => Err(e@),
        Ok(None) => Ok(None),
        Ok(Some(entity)) => Ok(Some(entity@)),
    }
}

/// The view of what a step of the iterator gave.
pub open spec fn step_view(step: Result<Option<WalletRecord>, WalletError>) -> Result<
    Option<WalletRecordView>,
    Failure,
> {
    match step {
        Err(e) => Err(e@),
        Ok(None) => Ok(None),
        Ok(Some(record)) => Ok(Some(record@)),
    }
}

/// Decrypts a row of a cursor into the record that it holds.
pub fn decrypt_row(entity: &StorageEntity, keys: &Keys) -> (r: Result<WalletRecord, WalletError>)
    ensures
        match r {
            Ok(record) => decrypted_row(entity@, keys@) == Ok::<WalletRecordView, Failure>(record@),
            Err(e) => decrypted_row(entity@, keys@) == Err::<WalletRecordView, Failure>(e@),
        },
{
    let name = match decrypt_text(entity.name.as_slice(), &keys.name_key, "Unable to decrypt data") {
        Err(e) => {
            return Err(e);
        },
        Ok(name) => name,
    };
    let value = match decrypt_optional_value(&entity.value, &keys.value_key) {
        Err(e) => {
            return Err(e);
        },
        Ok(value) => value,
    };
    let tags = match decrypt_tags(&entity.tags, &keys.tag_name_key, &keys.tag_value_key) {
        Err(e) => {
            return Err(e);
        },
        Ok(tags) => tags,
    };
    Ok(WalletRecord::new(name, None, value, tags))
}

/// The step of the iterator for what its cursor gave.
pub fn decrypt_fetched(fetched: Result<Option<StorageEntity>, WalletStorageError>, keys: &Keys) -> (step: Result<
    Option<WalletRecord>,
    WalletError,
>)
    ensures
        step_view(step) == step_outcome(fetched_view(fetched), keys@),
{
    match fetched {
        Err(e) => Err(WalletError::from_storage(e)),
        Ok(None) => Ok(None),
        Ok(Some(entity)) => match decrypt_row(&entity, keys) {
            Err(e) => Err(e),
            Ok(record) => Ok(Some(record)),
        },
    }
}

/// The records behind a cursor of a backend. It decrypts each row as it is
/// asked for, and reports the first failure as it meets it.
pub struct WalletIterator<'a, I: StorageIterator> {
    storage_iterator: I,
    keys: &'a Keys,
}

impl<'a, I: StorageIterator> WalletIterator<'a, I> {
    /// The keys that the rows are decrypted with.
    pub closed spec fn keys(&self) -> Keys {
        *self.keys
    }

    /// The records behind `storage_iter`, decrypted with `keys`.
    pub fn new(storage_iter: I, keys: &'a Keys) -> (iterator: Self)
        ensures
            iterator.keys() == *keys,
    {
        WalletIterator { storage_iterator: storage_iter, keys: keys }
    }

    /// Asks the cursor for its next row and decrypts it. What comes back is
    /// what `step_outcome` gives for what the cursor gave.
    pub fn next(&mut self) -> (step: Result<Option<WalletRecord>, WalletError>)
        ensures
            final(self).keys() == old(self).keys(),
            exists|fetched: Result<Option<StorageEntity>, WalletStorageError>|
                step_view(step) == #[trigger] step_outcome(fetched_view(fetched), old(self).keys()@),
    {
        let fetched = self.storage_iterator.next();
        let ghost given = fetched;
        let step = decrypt_fetched(fetched, self.keys);
        assert(step_view(step) == step_outcome(fetched_view(given), self.keys()@));
        step
    }
}

} // verus!
