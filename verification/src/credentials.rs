//! The credentials that open a wallet: a JSON object that holds the master
//! key, as base64, and the credentials of the storage backend.

use crate::crypto::{key_at, Key, KEY_LEN};
use crate::errors::{text, Failure, WalletError};
use crate::json::{
    get_json_member, get_json_text, is_json_object, json_of_found, json_parsed, json_written, member_of,
    parse_json, write_json, Json,
};
use vstd::prelude::*;

verus! {

/// The bytes that a text holds as standard base64, or `None` where the text
/// is no base64.
pub uninterp spec fn base64_decoded(text: Seq<char>) -> Option<Seq<u8>>;

/// Calls `base64::decode`. Trusted: the result is what the text holds as
/// standard base64.
#[verifier::external_body]
fn decode_base64(text: &str) -> (decoded: Option<Vec<u8>>)
    ensures
        crate::crypto::bytes_of(decoded) == base64_decoded(text@),
{
    base64::decode(text).ok()
}

/// What opens a wallet.
#[derive(Debug, Clone, PartialEq, Eq)]
pub struct WalletCredentials {
    /// The key under which the keys blob of the wallet is encrypted.
    pub master_key: Key,
    /// The credentials of the storage backend, as JSON.
    pub storage_credentials: String,
}

/// Credentials, with the key and the text as sequences.
pub struct WalletCredentialsView {
    pub master_key: Seq<u8>,
    pub storage_credentials: Seq<char>,
}

impl View for WalletCredentials {
    type V = WalletCredentialsView;

    open spec fn view(&self) -> WalletCredentialsView {
        WalletCredentialsView { master_key: self.master_key@, storage_credentials: self.storage_credentials@ }
    }
}

/// The master key that the member `master_key` of credentials holds: the
/// first `KEY_LEN` bytes of its base64 text. An `InputError` where the member
/// is missing or no string, is no base64, or holds fewer bytes than a key.
pub open spec fn master_key_of(member: Option<Json>) -> Result<Seq<u8>, Failure> {
    match member {
        Some(Json::Text(encoded)) => match base64_decoded(encoded) {
            None => Err(Failure::InputError("Credentials 'master_key' field is not base64"@)),
            Some(bytes) => if bytes.len() < KEY_LEN {
                Err(Failure::InputError("Credentials 'master_key' field is too short"@))
            } else {
                Ok(bytes.subrange(0, KEY_LEN as int))
            },
        },
        _ => Err(Failure::InputError("Credentials missing 'master_key' field"@)),
    }
}

/// The storage credentials that the member `storage_credentials` of
/// credentials holds: the member, an object, written as JSON. An `InputError`
/// where the member is missing or no object.
pub open spec fn storage_credentials_of(member: Option<Json>) -> Result<Seq<char>, Failure> {
    match member {
        Some(Json::Object(members)) => Ok(json_written(Json::Object(members))),
        _ => Err(Failure::InputError("Credentials missing 'storage_credentials' field"@)),
    }
}

/// The credentials that a parsed text holds. The text must be a JSON object;
/// its master key is read first, then its storage credentials.
pub open spec fn credentials_of(parsed: Option<Json>) -> Result<WalletCredentialsView, Failure> {
    match parsed {
        Some(Json::Object(members)) => {
            let document = Json::Object(members);
            match master_key_of(member_of(document, "master_key"@)) {
                Err(failure) => Err(failure),
                Ok(master_key) => match storage_credentials_of(member_of(document, "storage_credentials"@)) {
                    Err(failure) => Err(failure),
                    Ok(storage_credentials) => Ok(
                        WalletCredentialsView { master_key: master_key, storage_credentials: storage_credentials },
                    ),
                },
            }
        },
        Some(_) => Err(Failure::InputError("Credentials must be JSON object"@)),
        None => Err(Failure::InputError("Credentials must be valid JSON"@)),
    }
}

/// The view of the outcome of reading credentials.
pub open spec fn credentials_view(r: Result<WalletCredentials, WalletError>) -> Result<
    WalletCredentialsView,
    Failure,
> {
    match r {
        Ok(credentials) => Ok(credentials@),
        Err(e) => Err(e@),
    }
}

/// The master key that a member of credentials holds.
fn read_master_key(member: Option<&serde_json::Value>) -> (r: Result<Key, WalletError>)
    ensures
        match r {
            Ok(key) => master_key_of(json_of_found(member)) == Ok::<Seq<u8>, Failure>(key@),
            Err(e) => master_key_of(json_of_found(member)) == Err::<Seq<u8>, Failure>(e@),
        },
{
    let master_key_encoded = match member {
        Some(value) => match get_json_text(value) {
            Some(encoded) => encoded,
            None => {
                return Err(WalletError::InputError(text("Credentials missing 'master_key' field")));
            },
        },
        None => {
            return Err(WalletError::InputError(text("Credentials missing 'master_key' field")));
        },
    };
    match decode_base64(master_key_encoded) {
        None => Err(WalletError::InputError(text("Credentials 'master_key' field is not base64"))),
        Some(decoded_vector) => {
            if decoded_vector.len() < KEY_LEN {
                Err(WalletError::InputError(text("Credentials 'master_key' field is too short")))
            } else {
                Ok(key_at(decoded_vector.as_slice(), 0))
            }
        },
    }
}

impl WalletCredentials {
    /// Reads credentials from their JSON text.
    pub fn from_json(json: &str) -> (r: Result<WalletCredentials, WalletError>)
        ensures
            credentials_view(r) == credentials_of(json_parsed(json@)),
    {
        let document = match parse_json(json) {
            Some(document) => document,
            None => {
                return Err(WalletError::InputError(text("Credentials must be valid JSON")));
            },
        };
        if !is_json_object(&document) {
            return Err(WalletError::InputError(text("Credentials must be JSON object")));
        }
        let master_key = match read_master_key(get_json_member(&document, "master_key")) {
            Ok(master_key) => master_key,
            Err(e) => {
                return Err(e);
            },
        };
        let storage_credentials = match get_json_member(&document, "storage_credentials") {
            Some(value) => {
                if is_json_object(value) {
                    write_json(value)
                } else {
                    return Err(WalletError::InputError(text("Credentials missing 'storage_credentials' field")));
                }
            },
            None => {
                return Err(WalletError::InputError(text("Credentials missing 'storage_credentials' field")));
            },
        };
        Ok(WalletCredentials { master_key: master_key, storage_credentials: storage_credentials })
    }
}

} // verus!
