//! The wallets of a process: the storage types that wallets can be opened
//! of, the wallets that are open, each under a handle, and the description
//! of a wallet as it is kept beside the wallet and as it is shown to a
//! caller. Files are not read or written here: what a request needs from
//! the files of a wallet comes in as an argument.

use crate::credentials::{credentials_of, WalletCredentials, WalletCredentialsView};
use crate::encryption::{sealable_tags, sealable_text};
use crate::errors::{
    decimal_text, storage_failure, text, Failure, StorageFailure, WalletError, WalletStorageError,
};
use crate::json::json_parsed;
use crate::storage::{StorageEntity, WalletStorageType};
use crate::wallet::{
    decrypted_keys, got_view, read_outcome, read_view, stored_view, write_outcome, written_view, Keys, KeysView,
    Tags, Wallet, WalletRecord,
};
use std::collections::HashMap;
use vstd::prelude::*;

verus! {

broadcast use vstd::std_specs::hash::group_hash_axioms;

/// The name of the file, in the directory of a wallet, that holds its
/// descriptor.
pub const DESCRIPTOR_FILE: &'static str = "wallet.json";

/// The name of the file, in the directory of a wallet, that holds the
/// configuration of its storage, where it has one.
pub const CONFIG_FILE: &'static str = "config.json";

/// What is kept beside a wallet: its name, the pool it belongs to, and the
/// name of the storage type that holds it.
#[derive(Debug, Clone, PartialEq, Eq)]
pub struct WalletDescriptor {
    pub pool_name: String,
    pub xtype: String,
    pub name: String,
}

impl WalletDescriptor {
    /// The descriptor of the wallet `name` of the pool `pool_name`, held by
    /// the storage type `xtype`.
    pub fn new(pool_name: &str, xtype: &str, name: &str) -> (descriptor: WalletDescriptor)
        ensures
            descriptor.pool_name@ == pool_name@,
            descriptor.xtype@ == xtype@,
            descriptor.name@ == name@,
    {
        WalletDescriptor { pool_name: text(pool_name), xtype: text(xtype), name: text(name) }
    }
}

/// What a caller is shown of a wallet.
#[derive(Debug, Clone, PartialEq, Eq)]
pub struct WalletMetadata {
    pub name: String,
    pub type_: String,
    pub associated_pool_name: String,
}

impl From<WalletDescriptor> for WalletMetadata {
    fn from(internal: WalletDescriptor) -> (metadata: WalletMetadata) {
        WalletMetadata {
            name: internal.name,
            type_: internal.xtype,
            associated_pool_name: internal.pool_name,
        }
    }
}

impl vstd::std_specs::convert::FromSpecImpl<WalletDescriptor> for WalletMetadata {
    open spec fn obeys_from_spec() -> bool {
        true
    }

    open spec fn from_spec(internal: WalletDescriptor) -> WalletMetadata {
        WalletMetadata {
            name: internal.name,
            type_: internal.xtype,
            associated_pool_name: internal.pool_name,
        }
    }
}

/// What a caller is shown of the wallets whose descriptors were looked for:
/// the metadata of each descriptor that was found, in the same order. A
/// wallet whose descriptor was not found, or could not be read, is left out.
pub open spec fn listed(found: Seq<Option<WalletDescriptor>>) -> Seq<WalletMetadata>
    decreases found.len(),
{
    if found.len() == 0 {
        Seq::empty()
    } else {
        match found.last() {
            Some(descriptor) => listed(found.drop_last()).push(
                <WalletMetadata as vstd::std_specs::convert::FromSpec<WalletDescriptor>>::from_spec(descriptor),
            ),
            None => listed(found.drop_last()),
        }
    }
}

/// The name of the storage type that a wallet gets where none is asked for.
pub open spec fn default_type() -> Seq<char> {
    "default"@
}

/// The names of a sequence of registered storage types.
pub open spec fn names_of<T>(types: Seq<(String, T)>) -> Seq<Seq<char>> {
    Seq::new(types.len(), |i: int| types[i].0@)
}

/// The name of the storage type that is asked for: `default` where none is.
pub open spec fn asked_type(storage_kind: Option<&str>) -> Seq<char> {
    match storage_kind {
        Some(name) => name@,
        None => default_type(),
    }
}

/// Whether a wallet may be created: its storage type must be registered,
/// else `UnknownType`, and no wallet of its name may exist, else
/// `AlreadyExists`.
pub open spec fn new_wallet_outcome(known: bool, xtype: Seq<char>, exists: bool, name: Seq<char>) -> Result<
    (),
    Failure,
> {
    if !known {
        Err(Failure::UnknownType(xtype))
    } else if exists {
        Err(Failure::AlreadyExists(name))
    } else {
        Ok(())
    }
}

/// What creating a wallet gives for what the backend gave: `UnknownType`
/// where the storage type is not registered, else the failure to read the
/// credentials, else what the backend gave.
pub open spec fn create_outcome(
    known: bool,
    xtype: Seq<char>,
    credentials: Result<WalletCredentialsView, Failure>,
    stored: Result<(), StorageFailure>,
) -> Result<(), Failure> {
    if !known {
        Err(Failure::UnknownType(xtype))
    } else {
        match credentials {
            Err(failure) => Err(failure),
            Ok(_) => write_outcome(stored),
        }
    }
}

/// What deleting a wallet gives for what the backend gave: `UnknownType`
/// where the storage type is not registered, else what the backend gave.
pub open spec fn delete_outcome(known: bool, xtype: Seq<char>, stored: Result<(), StorageFailure>) -> Result<
    (),
    Failure,
> {
    if !known {
        Err(Failure::UnknownType(xtype))
    } else {
        write_outcome(stored)
    }
}

/// The text of the failure to give out another handle.
pub open spec fn no_handle_left() -> Seq<char> {
    "No wallet handle is left"@
}

/// What opening a wallet gives for what the backend gave, once the wallet
/// may be opened: the failure of the backend, the failure to decrypt the
/// keys blob that it gave, or the keys of the wallet.
pub open spec fn opened_keys(master_key: Seq<u8>, opened: Result<Seq<u8>, StorageFailure>) -> Result<
    KeysView,
    Failure,
> {
    match opened {
        Err(failure) => Err(storage_failure(failure)),
        Ok(blob) => decrypted_keys(blob, master_key),
    }
}

/// Why a wallet may not be opened, if it may not: its storage type is not
/// registered, a wallet of its name is open, no handle is left, or its
/// credentials do not read, in this order.
pub open spec fn open_refusal(
    known: bool,
    xtype: Seq<char>,
    opened: bool,
    name: Seq<char>,
    next_handle: i32,
    credentials: Result<WalletCredentialsView, Failure>,
) -> Option<Failure> {
    if !known {
        Some(Failure::UnknownType(xtype))
    } else if opened {
        Some(Failure::AlreadyOpened(name))
    } else if next_handle == i32::MAX {
        Some(Failure::InvalidHandle(no_handle_left()))
    } else {
        match credentials {
            Err(failure) => Some(failure),
            Ok(_) => None,
        }
    }
}

/// The wallets that a process has open, each under a handle, and the storage
/// types that it can open wallets of, each under a name. Handles are given
/// out in increasing order and never twice.
pub struct WalletService<T: WalletStorageType> {
    storage_types: Vec<(String, T)>,
    wallets: HashMap<i32, Wallet<T::Storage>>,
    next_handle: i32,
}

impl<T: WalletStorageType> WalletService<T> {
    /// The names of the registered storage types, in the order in which they
    /// were registered.
    pub closed spec fn type_names(&self) -> Seq<Seq<char>> {
        names_of(self.storage_types@)
    }

    /// The open wallets, each under its handle.
    pub closed spec fn open_wallets(&self) -> Map<i32, Wallet<T::Storage>> {
        self.wallets@
    }

    /// The handle that the next wallet to open gets.
    pub closed spec fn next_handle(&self) -> i32 {
        self.next_handle
    }

    /// Whether a storage type is registered under this name.
    pub open spec fn knows_type(&self, name: Seq<char>) -> bool {
        self.type_names().contains(name)
    }

    /// Whether a wallet is open under this handle.
    pub open spec fn is_open(&self, handle: i32) -> bool {
        self.open_wallets().contains_key(handle)
    }

    /// The wallet that is open under a handle.
    pub open spec fn wallet(&self, handle: i32) -> Wallet<T::Storage>
        recommends
            self.is_open(handle),
    {
        self.open_wallets()[handle]
    }

    /// Whether a wallet of this name is open.
    pub open spec fn has_open(&self, name: Seq<char>) -> bool {
        exists|handle: i32| #[trigger] self.is_open(handle) && self.wallet(handle).name() == name
    }

    /// What holds of every service: every handle of an open wallet is
    /// positive and below the next to give out, no two open wallets have the
    /// same name, and no type name occurs twice.
    #[verifier::type_invariant]
    pub closed spec fn wf(self) -> bool {
        &&& self.next_handle >= 1
        &&& forall|handle: i32| #[trigger] self.wallets@.contains_key(handle) ==> 0 < handle < self.next_handle
        &&& forall|one: i32, other: i32|
            #[trigger] self.wallets@.contains_key(one) && #[trigger] self.wallets@.contains_key(other) && one
                != other ==> self.wallets@[one].name() != self.wallets@[other].name()
        &&& forall|i: int, j: int|
            0 <= i < j < self.storage_types@.len() ==> (#[trigger] self.storage_types@[i]).0@ != (
            #[trigger] self.storage_types@[j]).0@
    }

    /// A service with no open wallet and one storage type, registered under
    /// the name `default`.
    pub fn new(default: T) -> (service: Self)
        ensures
            service.type_names() == seq![default_type()],
            service.open_wallets() == Map::<i32, Wallet<T::Storage>>::empty(),
            service.next_handle() == 1,
    {
        let mut storage_types: Vec<(String, T)> = Vec::new();
        storage_types.push((text("default"), default));
        let wallets: HashMap<i32, Wallet<T::Storage>> = HashMap::new();
        assert(names_of(storage_types@) =~= seq![default_type()]);
        WalletService { storage_types: storage_types, wallets: wallets, next_handle: 1 }
    }

    /// The index of the storage type of this name, or the number of types
    /// where there is none.
    fn find_type(&self, name: &str) -> (at: usize)
        ensures
            at <= self.type_names().len(),
            at < self.type_names().len() ==> self.type_names()[at as int] == name@,
            at == self.type_names().len() ==> !self.knows_type(name@),
            self.type_names().len() == self.storage_types@.len(),
    {
        let wanted = text(name);
        let mut i: usize = 0;
        while i < self.storage_types.len()
            invariant
                i <= self.storage_types@.len(),
                wanted@ == name@,
                self.type_names().len() == self.storage_types@.len(),
                forall|j: int| 0 <= j < i ==> self.type_names()[j] != name@,
            decreases self.storage_types@.len() - i,
        {
            if self.storage_types[i].0 == wanted {
                return i;
            }
            i += 1;
        }
        i
    }

    /// Whether a storage type is registered under this name.
    pub fn is_registered(&self, xtype: &str) -> (known: bool)
        ensures
            known == self.knows_type(xtype@),
    {
        let at = self.find_type(xtype);
        at < self.storage_types.len()
    }

    /// Whether a wallet of this name is open.
    pub fn is_wallet_open(&self, name: &str) -> (open: bool)
        ensures
            open == self.has_open(name@),
    {
        for entry in entries: self.wallets.iter()
            invariant
                forall|j: int| 0 <= j < entries.index() ==> (#[trigger] entries.seq()[j]).1.name() != name@,
        {
            if entry.1.has_name(name) {
                assert(self.is_open(*entry.0) && self.wallet(*entry.0).name() == name@);
                return true;
            }
        }
        false
    }

    /// Registers a storage type under a name that is not taken.
    pub fn register_type(&mut self, xtype: &str, storage_type: T) -> (r: Result<(), WalletError>)
        ensures
            final(self).open_wallets() == old(self).open_wallets(),
            final(self).next_handle() == old(self).next_handle(),
            match r {
                Ok(()) => !old(self).knows_type(xtype@) && final(self).type_names() == old(self).type_names().push(
                    xtype@,
                ),
                Err(e) => old(self).knows_type(xtype@) && e@ == Failure::TypeAlreadyRegistered(xtype@)
                    && final(self).type_names() == old(self).type_names(),
            },
    {
        proof {
            use_type_invariant(&*self);
        }
        let at = self.find_type(xtype);
        if at < self.storage_types.len() {
            return Err(WalletError::TypeAlreadyRegistered(text(xtype)));
        }
        let ghost before = self.storage_types@;
        let mut storage_types: Vec<(String, T)> = Vec::new();
        std::mem::swap(&mut storage_types, &mut self.storage_types);
        storage_types.push((text(xtype), storage_type));
        proof {
            assert(names_of(storage_types@) =~= names_of(before).push(xtype@));
            assert forall|i: int, j: int| 0 <= i < j < storage_types@.len() implies (
            #[trigger] storage_types@[i]).0@ != (#[trigger] storage_types@[j]).0@ by {
                if j == before.len() {
                    assert(names_of(before)[i] == before[i].0@);
                } else {
                    assert(before[i].0@ != before[j].0@);
                }
            }
        }
        self.storage_types = storage_types;
        Ok(())
    }

    /// Whether a wallet may be created, given whether one of its name
    /// exists.
    pub fn check_new_wallet(&self, name: &str, storage_kind: Option<&str>, exists: bool) -> (r: Result<
        (),
        WalletError,
    >)
        ensures
            written_view(r) == new_wallet_outcome(
                self.knows_type(asked_type(storage_kind)),
                asked_type(storage_kind),
                exists,
                name@,
            ),
    {
        let storage_kind = match storage_kind {
            Some(name) => name,
            None => "default",
        };
        if !self.is_registered(storage_kind) {
            return Err(WalletError::UnknownType(text(storage_kind)));
        }
        if exists {
            return Err(WalletError::AlreadyExists(text(name)));
        }
        Ok(())
    }

    /// Creates the storage of a new wallet: reads the credentials, draws the
    /// keys of the wallet, and hands their keys blob to the storage type.
    /// Gives the descriptor to keep beside the wallet.
    pub fn create_wallet(
        &self,
        pool_name: &str,
        name: &str,
        storage_kind: Option<&str>,
        storage_config: Option<&str>,
        credentials: &str,
    ) -> (r: Result<WalletDescriptor, WalletError>)
        ensures
            exists|stored: Result<(), WalletStorageError>|
                match r {
                    Ok(descriptor) => create_outcome(
                        self.knows_type(asked_type(storage_kind)),
                        asked_type(storage_kind),
                        credentials_of(json_parsed(credentials@)),
                        #[trigger] stored_view(stored),
                    ) == Ok::<(), Failure>(()) && descriptor.pool_name@ == pool_name@ && descriptor.xtype@
                        == asked_type(storage_kind) && descriptor.name@ == name@,
                    Err(e) => create_outcome(
                        self.knows_type(asked_type(storage_kind)),
                        asked_type(storage_kind),
                        credentials_of(json_parsed(credentials@)),
                        #[trigger] stored_view(stored),
                    ) == Err::<(), Failure>(e@),
                },
    {
        let storage_kind = match storage_kind {
            Some(name) => name,
            None => "default",
        };
        let ghost unasked: Result<(), WalletStorageError> = Ok(());
        let at = self.find_type(storage_kind);
        if at >= self.storage_types.len() {
            assert(stored_view(unasked) == Ok::<(), StorageFailure>(()));
            return Err(WalletError::UnknownType(text(storage_kind)));
        }
        let credentials = match WalletCredentials::from_json(credentials) {
            Ok(credentials) => credentials,
            Err(e) => {
                assert(stored_view(unasked) == Ok::<(), StorageFailure>(()));
                return Err(e);
            },
        };
        let keys = Keys::gen_keys(credentials.master_key);
        let stored = self.storage_types[at].1.create_storage(
            name,
            storage_config,
            credentials.storage_credentials.as_str(),
            &keys,
        );
        let ghost given = stored;
        match crate::wallet::finish_write(stored) {
            Ok(()) => {
                assert(stored_view(given) == Ok::<(), StorageFailure>(()));
                Ok(WalletDescriptor::new(pool_name, storage_kind, name))
            },
            Err(e) => {
                assert(write_outcome(stored_view(given)) == Err::<(), Failure>(e@));
                Err(e)
            },
        }
    }

    /// Deletes the storage of a wallet.
    pub fn delete_wallet(&self, descriptor: &WalletDescriptor, config: Option<&str>, credentials: &str) -> (r:
        Result<(), WalletError>)
        ensures
            exists|stored: Result<(), WalletStorageError>|
                written_view(r) == delete_outcome(
                    self.knows_type(descriptor.xtype@),
                    descriptor.xtype@,
                    #[trigger] stored_view(stored),
                ),
    {
        let at = self.find_type(descriptor.xtype.as_str());
        if at >= self.storage_types.len() {
            let ghost unasked: Result<(), WalletStorageError> = Ok(());
            assert(stored_view(unasked) == Ok::<(), StorageFailure>(()));
            return Err(WalletError::UnknownType(descriptor.xtype.clone()));
        }
        let stored = self.storage_types[at].1.delete_storage(descriptor.name.as_str(), config, credentials);
        let ghost given = stored;
        let written = crate::wallet::finish_write(stored);
        assert(written_view(written) == write_outcome(stored_view(given)));
        written
    }

    /// Why the wallet of a descriptor may not be opened with these
    /// credentials, if it may not.
    pub open spec fn refusal(&self, descriptor: WalletDescriptor, credentials: Seq<char>) -> Option<Failure> {
        open_refusal(
            self.knows_type(descriptor.xtype@),
            descriptor.xtype@,
            self.has_open(descriptor.name@),
            descriptor.name@,
            self.next_handle(),
            credentials_of(json_parsed(credentials)),
        )
    }

    /// Whether `after` is this service with one more wallet open: the wallet
    /// of the descriptor, with these keys, under a handle that was not in
    /// use. Every other handle keeps its wallet.
    pub open spec fn with_opened(&self, after: Self, handle: i32, descriptor: WalletDescriptor, keys: KeysView) -> bool {
        &&& handle == self.next_handle()
        &&& after.next_handle() == handle + 1
        &&& after.type_names() == self.type_names()
        &&& !self.is_open(handle)
        &&& after.is_open(handle)
        &&& after.open_wallets() == self.open_wallets().insert(handle, after.wallet(handle))
        &&& after.wallet(handle).name() == descriptor.name@
        &&& after.wallet(handle).pool_name() == descriptor.pool_name@
        &&& after.wallet(handle).keys()@ == keys
    }

    /// Whether `after` holds what this service holds.
    pub open spec fn same_as(&self, after: Self) -> bool {
        &&& after.next_handle() == self.next_handle()
        &&& after.type_names() == self.type_names()
        &&& after.open_wallets() == self.open_wallets()
    }

    /// Whether opening a wallet went as it must for what the backend gave.
    pub open spec fn opened_as(
        &self,
        after: Self,
        r: Result<i32, WalletError>,
        descriptor: WalletDescriptor,
        master_key: Seq<u8>,
        opened: Result<Seq<u8>, StorageFailure>,
    ) -> bool {
        match r {
            Ok(handle) => opened_keys(master_key, opened) matches Ok(keys) && self.with_opened(
                after,
                handle,
                descriptor,
                keys,
            ),
            Err(e) => opened_keys(master_key, opened) == Err::<KeysView, Failure>(e@) && self.same_as(after),
        }
    }

    /// Opens the storage of a wallet and reads the keys of the wallet.
    fn open_wallet_storage(&self, descriptor: &WalletDescriptor, config: Option<&str>, credentials: &str) -> (r: Result<
        Wallet<T::Storage>,
        WalletError,
    >)
        ensures
            match self.refusal(*descriptor, credentials@) {
                Some(failure) => r matches Err(e) && e@ == failure,
                None => exists|opened: Result<Seq<u8>, StorageFailure>|
                    match r {
                        Ok(wallet) => #[trigger] opened_keys(
                            credentials_of(json_parsed(credentials@))->Ok_0.master_key,
                            opened,
                        ) == Ok::<KeysView, Failure>(wallet.keys()@) && wallet.name() == descriptor.name@
                            && wallet.pool_name() == descriptor.pool_name@,
                        Err(e) => #[trigger] opened_keys(
                            credentials_of(json_parsed(credentials@))->Ok_0.master_key,
                            opened,
                        ) == Err::<KeysView, Failure>(e@),
                    },
            },
    {
        let at = self.find_type(descriptor.xtype.as_str());
        if at >= self.storage_types.len() {
            return Err(WalletError::UnknownType(descriptor.xtype.clone()));
        }
        if self.is_wallet_open(descriptor.name.as_str()) {
            return Err(WalletError::AlreadyOpened(descriptor.name.clone()));
        }
        if self.next_handle == i32::MAX {
            return Err(WalletError::InvalidHandle(text("No wallet handle is left")));
        }
        let parsed = match WalletCredentials::from_json(credentials) {
            Ok(parsed) => parsed,
            Err(e) => {
                return Err(e);
            },
        };
        let (storage, enc_keys) = match self.storage_types[at].1.open_storage(
            descriptor.name.as_str(),
            config,
            parsed.storage_credentials.as_str(),
        ) {
            Ok(opened) => opened,
            Err(e) => {
                let ghost opened: Result<Seq<u8>, StorageFailure> = Err(e@);
                let err = WalletError::from_storage(e);
                assert(credentials_of(json_parsed(credentials@))->Ok_0.master_key == parsed.master_key@);
                assert(opened_keys(parsed.master_key@, opened) == Err::<KeysView, Failure>(err@));
                return Err(err);
            },
        };
        let ghost opened: Result<Seq<u8>, StorageFailure> = Ok(enc_keys@);
        assert(credentials_of(json_parsed(credentials@))->Ok_0.master_key == parsed.master_key@);
        match Keys::decrypt_keys(enc_keys.as_slice(), &parsed.master_key) {
            Ok(keys) => {
                assert(opened_keys(parsed.master_key@, opened) == Ok::<KeysView, Failure>(keys@));
                Ok(Wallet::new(descriptor.name.as_str(), descriptor.pool_name.as_str(), storage, keys))
            },
            Err(e) => {
                assert(opened_keys(parsed.master_key@, opened) == Err::<KeysView, Failure>(e@));
                Err(e)
            },
        }
    }

    /// Opens a wallet: opens its storage with the credentials, decrypts the
    /// keys blob that the storage keeps under the master key, and gives the
    /// wallet the next handle.
    pub fn open_wallet(&mut self, descriptor: &WalletDescriptor, config: Option<&str>, credentials: &str) -> (r:
        Result<i32, WalletError>)
        ensures
            match old(self).refusal(*descriptor, credentials@) {
                Some(failure) => r matches Err(e) && e@ == failure && old(self).same_as(*final(self)),
                None => exists|opened: Result<Seq<u8>, StorageFailure>| #[trigger]
                    old(self).opened_as(
                        *final(self),
                        r,
                        *descriptor,
                        credentials_of(json_parsed(credentials@))->Ok_0.master_key,
                        opened,
                    ),
            },
    {
        proof {
            use_type_invariant(&*self);
        }
        let ghost master_key = credentials_of(json_parsed(credentials@))->Ok_0.master_key;
        let wallet = match self.open_wallet_storage(descriptor, config, credentials) {
            Ok(wallet) => wallet,
            Err(e) => {
                proof {
                    if old(self).refusal(*descriptor, credentials@) is None {
                        let opened = choose|opened: Result<Seq<u8>, StorageFailure>| #[trigger]
                            opened_keys(master_key, opened) == Err::<KeysView, Failure>(e@);
                        assert(old(self).opened_as(*self, Err(e), *descriptor, master_key, opened));
                    }
                }
                return Err(e);
            },
        };
        let ghost opened = choose|opened: Result<Seq<u8>, StorageFailure>| #[trigger]
            opened_keys(master_key, opened) == Ok::<KeysView, Failure>(wallet.keys()@);
        let ghost keys = wallet.keys()@;
        let wallet_handle = self.next_handle;
        let ghost before = self.wallets@;
        let ghost opened_wallet = wallet;
        assert(!old(self).has_open(descriptor.name@));
        let mut wallets: HashMap<i32, Wallet<T::Storage>> = HashMap::new();
        std::mem::swap(&mut wallets, &mut self.wallets);
        wallets.insert(wallet_handle, wallet);
        proof {
            assert(wallets@ == before.insert(wallet_handle, opened_wallet));
            assert forall|one: i32, other: i32|
                #[trigger] wallets@.contains_key(one) && #[trigger] wallets@.contains_key(other) && one
                    != other implies wallets@[one].name() != wallets@[other].name() by {
                if one != wallet_handle && other != wallet_handle {
                    assert(before.contains_key(one) && before.contains_key(other));
                } else if one == wallet_handle {
                    assert(old(self).is_open(other));
                } else {
                    assert(old(self).is_open(one));
                }
            }
        }
        self.next_handle = wallet_handle + 1;
        self.wallets = wallets;
        assert(old(self).with_opened(*self, wallet_handle, *descriptor, keys));
        assert(old(self).opened_as(*self, Ok(wallet_handle), *descriptor, master_key, opened));
        Ok(wallet_handle)
    }

    /// Closes the wallet that is open under a handle and releases its
    /// storage. The handle is not open afterwards, and no wallet of that
    /// name is; every other handle keeps its wallet.
    pub fn close_wallet(&mut self, handle: i32) -> (r: Result<(), WalletError>)
        ensures
            final(self).next_handle() == old(self).next_handle(),
            final(self).type_names() == old(self).type_names(),
            final(self).open_wallets() == old(self).open_wallets().remove(handle),
            if old(self).is_open(handle) {
                &&& !final(self).has_open(old(self).wallet(handle).name())
                &&& exists|stored: Result<(), WalletStorageError>|
                    written_view(r) == write_outcome(#[trigger] stored_view(stored))
            } else {
                r matches Err(e) && e@ == Failure::InvalidHandle(decimal_text(handle as int))
            },
    {
        proof {
            use_type_invariant(&*self);
        }
        let ghost before = self.wallets@;
        let mut wallets: HashMap<i32, Wallet<T::Storage>> = HashMap::new();
        std::mem::swap(&mut wallets, &mut self.wallets);
        let removed = wallets.remove(&handle);
        assert(wallets@ == before.remove(handle));
        self.wallets = wallets;
        match removed {
            Some(wallet) => {
                let mut wallet = wallet;
                proof {
                    let name = before[handle].name();
                    if self.has_open(name) {
                        let other = choose|other: i32| #[trigger]
                            self.is_open(other) && self.wallet(other).name() == name;
                        assert(before.contains_key(other) && before.contains_key(handle));
                    }
                }
                wallet.close()
            },
            None => {
                assert(self.wallets@ =~= before);
                Err(WalletError::invalid_handle(handle))
            },
        }
    }

    /// Adds a record to the wallet that is open under a handle.
    pub fn add_record(&self, handle: i32, type_: &str, name: &str, value: &str, tags: &Tags) -> (r: Result<
        (),
        WalletError,
    >)
        requires
            sealable_text(type_@),
            sealable_text(name@),
            sealable_text(value@),
            sealable_tags(tags@),
        ensures
            if self.is_open(handle) {
                exists|stored: Result<(), WalletStorageError>|
                    written_view(r) == write_outcome(#[trigger] stored_view(stored))
            } else {
                r matches Err(e) && e@ == Failure::InvalidHandle(decimal_text(handle as int))
            },
    {
        match self.wallets.get(&handle) {
            Some(wallet) => wallet.add(type_, name, value, tags),
            None => Err(WalletError::invalid_handle(handle)),
        }
    }

    /// The record under a type and a name in the wallet that is open under a
    /// handle.
    pub fn get_record(&self, handle: i32, type_: &str, name: &str, options: &str) -> (r: Result<
        WalletRecord,
        WalletError,
    >)
        requires
            sealable_text(type_@),
            sealable_text(name@),
        ensures
            if self.is_open(handle) {
                exists|fetched: Result<StorageEntity, WalletStorageError>|
                    read_view(r) == read_outcome(#[trigger] got_view(fetched), self.wallet(handle).keys()@)
            } else {
                r matches Err(e) && e@ == Failure::InvalidHandle(decimal_text(handle as int))
            },
    {
        match self.wallets.get(&handle) {
            Some(wallet) => wallet.get(type_, name, options),
            None => Err(WalletError::invalid_handle(handle)),
        }
    }

    /// The name of the pool of the wallet that is open under a handle.
    pub fn get_pool_name(&self, handle: i32) -> (r: Result<String, WalletError>)
        ensures
            match r {
                Ok(pool_name) => self.is_open(handle) && pool_name@ == self.wallet(handle).pool_name(),
                Err(e) => !self.is_open(handle) && e@ == Failure::InvalidHandle(decimal_text(handle as int)),
            },
    {
        match self.wallets.get(&handle) {
            Some(wallet) => Ok(wallet.get_pool_name()),
            None => Err(WalletError::invalid_handle(handle)),
        }
    }

    /// The metadata of the wallets whose descriptors were found.
    pub fn list_wallets(&self, found: Vec<Option<WalletDescriptor>>) -> (descriptors: Vec<WalletMetadata>)
        ensures
            descriptors@ == listed(found@),
    {
        let mut descriptors: Vec<WalletMetadata> = Vec::new();
        let mut i: usize = 0;
        assert(found@.subrange(0, 0) =~= Seq::empty());
        while i < found.len()
            invariant
                i <= found@.len(),
                descriptors@ == listed(found@.subrange(0, i as int)),
            decreases found@.len() - i,
        {
            let ghost next = found@.subrange(0, i + 1);
            assert(next.drop_last() =~= found@.subrange(0, i as int));
            assert(next.last() == found@[i as int]);
            match &found[i] {
                Some(descriptor) => {
                    descriptors.push(
                        WalletMetadata {
                            name: descriptor.name.clone(),
                            type_: descriptor.xtype.clone(),
                            associated_pool_name: descriptor.pool_name.clone(),
                        },
                    );
                },
                None => {},
            }
            i += 1;
        }
        assert(found@.subrange(0, i as int) =~= found@);
        descriptors
    }
}

} // verus!
