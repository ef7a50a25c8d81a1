//! The options of a request to read records: which fields of a record the
//! caller wants back. They come as a JSON object; a field that the object
//! does not hold has its default.

use crate::errors::{text, Failure, WalletError};
use crate::json::{get_json_bool, get_json_member, is_json_object, json_parsed, member_of, parse_json, Json};
use crate::storage::{StorageEntity, StorageEntityView};
use vstd::prelude::*;

verus! {

/// Which fields of a record a read gives back.
#[derive(Debug, Clone, Copy, PartialEq, Eq, Structural)]
pub struct RecordOptions {
    /// Whether the type is given back; `retrieveType`, by default not.
    pub retrieve_type: bool,
    /// Whether the value is given back; `retrieveValue`, by default so.
    pub retrieve_value: bool,
    /// Whether the tags are given back; `retrieveTags`, by default not.
    pub retrieve_tags: bool,
}

/// What a search gives back.
#[derive(Debug, Clone, Copy, PartialEq, Eq, Structural)]
pub struct SearchOptions {
    /// Whether the records are given back; `retrieveRecords`, by default so.
    pub retrieve_records: bool,
    /// Whether the number of records found is given back;
    /// `retrieveTotalCount`, by default not.
    pub retrieve_total_count: bool,
    /// Which fields of each record are given back.
    pub record: RecordOptions,
}

/// The text of the failure on options that are no JSON.
pub open spec fn options_not_json() -> Seq<char> {
    "Options must be valid JSON"@
}

/// The text of the failure on options that are no JSON object.
pub open spec fn options_not_object() -> Seq<char> {
    "Options must be JSON object"@
}

/// The text of the failure on an option that is neither `true` nor `false`.
pub open spec fn option_not_bool() -> Seq<char> {
    "Options hold a field that is no boolean"@
}

/// The option under `key` in a JSON object: the default where the object
/// has no such member, its truth value where the member is `true` or
/// `false`, and an `InputError` where it is anything else.
pub open spec fn flag_of(document: Json, key: Seq<char>, default: bool) -> Result<bool, Failure> {
    match member_of(document, key) {
        None => Ok(default),
        Some(Json::Bool(flag)) => Ok(flag),
        Some(_) => Err(Failure::InputError(option_not_bool())),
    }
}

/// The options of a read that a JSON object holds. The fields are read in
/// the order type, value, tags, and the first that fails gives the failure.
pub open spec fn record_options_in(document: Json) -> Result<RecordOptions, Failure> {
    match flag_of(document, "retrieveType"@, false) {
        Err(failure) => Err(failure),
        Ok(retrieve_type) => match flag_of(document, "retrieveValue"@, true) {
            Err(failure) => Err(failure),
            Ok(retrieve_value) => match flag_of(document, "retrieveTags"@, false) {
                Err(failure) => Err(failure),
                Ok(retrieve_tags) => Ok(
                    RecordOptions {
                        retrieve_type: retrieve_type,
                        retrieve_value: retrieve_value,
                        retrieve_tags: retrieve_tags,
                    },
                ),
            },
        },
    }
}

/// The options of a search that a JSON object holds. The fields are read in
/// the order records, total count, then those of a read.
pub open spec fn search_options_in(document: Json) -> Result<SearchOptions, Failure> {
    match flag_of(document, "retrieveRecords"@, true) {
        Err(failure) => Err(failure),
        Ok(retrieve_records) => match flag_of(document, "retrieveTotalCount"@, false) {
            Err(failure) => Err(failure),
            Ok(retrieve_total_count) => match record_options_in(document) {
                Err(failure) => Err(failure),
                Ok(record) => Ok(
                    SearchOptions {
                        retrieve_records: retrieve_records,
                        retrieve_total_count: retrieve_total_count,
                        record: record,
                    },
                ),
            },
        },
    }
}

/// The JSON object that a parsed text holds: an `InputError` where the text
/// is no JSON or no object.
pub open spec fn options_document(parsed: Option<Json>) -> Result<Json, Failure> {
    match parsed {
        Some(Json::Object(members)) => Ok(Json::Object(members)),
        Some(_) => Err(Failure::InputError(options_not_object())),
        None => Err(Failure::InputError(options_not_json())),
    }
}

/// The options of a read that a parsed text holds.
pub open spec fn record_options_of(parsed: Option<Json>) -> Result<RecordOptions, Failure> {
    match options_document(parsed) {
        Err(failure) => Err(failure),
        Ok(document) => record_options_in(document),
    }
}

/// The options of a search that a parsed text holds.
pub open spec fn search_options_of(parsed: Option<Json>) -> Result<SearchOptions, Failure> {
    match options_document(parsed) {
        Err(failure) => Err(failure),
        Ok(document) => search_options_in(document),
    }
}

/// A row with the fields that the options ask for, and without the others.
/// The name is always there.
pub open spec fn selected(options: RecordOptions, entity: StorageEntityView) -> StorageEntityView {
    StorageEntityView {
        name: entity.name,
        value: if options.retrieve_value {
            entity.value
        } else {
            None
        },
        type_: if options.retrieve_type {
            entity.type_
        } else {
            None
        },
        tags: if options.retrieve_tags {
            entity.tags
        } else {
            None
        },
    }
}

/// Parses options into their JSON object.
fn parse_options(json: &str) -> (r: Result<serde_json::Value, WalletError>)
    ensures
        match r {
            Ok(document) => options_document(json_parsed(json@)) == Ok::<Json, Failure>(
                crate::json::json_of(document),
            ),
            Err(e) => options_document(json_parsed(json@)) == Err::<Json, Failure>(e@),
        },
{
    match parse_json(json) {
        None => Err(WalletError::InputError(text("Options must be valid JSON"))),
        Some(document) => {
            if is_json_object(&document) {
                Ok(document)
            } else {
                Err(WalletError::InputError(text("Options must be JSON object")))
            }
        },
    }
}

/// Reads the option under `key`.
fn read_flag(document: &serde_json::Value, key: &str, default: bool) -> (r: Result<bool, WalletError>)
    ensures
        match r {
            Ok(flag) => flag_of(crate::json::json_of(*document), key@, default) == Ok::<bool, Failure>(flag),
            Err(e) => flag_of(crate::json::json_of(*document), key@, default) == Err::<bool, Failure>(e@),
        },
{
    match get_json_member(document, key) {
        None => Ok(default),
        Some(member) => match get_json_bool(member) {
            Some(flag) => Ok(flag),
            None => Err(WalletError::InputError(text("Options hold a field that is no boolean"))),
        },
    }
}

/// Reads the options of a read from a JSON object.
fn read_record_options(document: &serde_json::Value) -> (r: Result<RecordOptions, WalletError>)
    ensures
        match r {
            Ok(options) => record_options_in(crate::json::json_of(*document)) == Ok::<RecordOptions, Failure>(
                options,
            ),
            Err(e) => record_options_in(crate::json::json_of(*document)) == Err::<RecordOptions, Failure>(e@),
        },
{
    let retrieve_type = match read_flag(document, "retrieveType", false) {
        Ok(flag) => flag,
        Err(e) => {
            return Err(e);
        },
    };
    let retrieve_value = match read_flag(document, "retrieveValue", true) {
        Ok(flag) => flag,
        Err(e) => {
            return Err(e);
        },
    };
    let retrieve_tags = match read_flag(document, "retrieveTags", false) {
        Ok(flag) => flag,
        Err(e) => {
            return Err(e);
        },
    };
    Ok(RecordOptions { retrieve_type: retrieve_type, retrieve_value: retrieve_value, retrieve_tags: retrieve_tags })
}

impl RecordOptions {
    /// The options of a read that asks for nothing in particular: the value,
    /// without the type and the tags.
    pub fn new() -> (options: RecordOptions)
        ensures
            options == (RecordOptions { retrieve_type: false, retrieve_value: true, retrieve_tags: false }),
    {
        RecordOptions { retrieve_type: false, retrieve_value: true, retrieve_tags: false }
    }

    /// Reads the options of a read from their JSON text.
    pub fn from_json(json: &str) -> (r: Result<RecordOptions, WalletError>)
        ensures
            match r {
                Ok(options) => record_options_of(json_parsed(json@)) == Ok::<RecordOptions, Failure>(options),
                Err(e) => record_options_of(json_parsed(json@)) == Err::<RecordOptions, Failure>(e@),
            },
    {
        match parse_options(json) {
            Err(e) => Err(e),
            Ok(document) => read_record_options(&document),
        }
    }

    /// Leaves in a row the fields that the options ask for, and takes out
    /// the others.
    pub fn select(&self, entity: StorageEntity) -> (kept: StorageEntity)
        ensures
            kept@ == selected(*self, entity@),
    {
        let StorageEntity { name, value, type_, tags } = entity;
        StorageEntity {
            name: name,
            value: if self.retrieve_value {
                value
            } else {
                None
            },
            type_: if self.retrieve_type {
                type_
            } else {
                None
            },
            tags: if self.retrieve_tags {
                tags
            } else {
                None
            },
        }
    }
}

impl SearchOptions {
    /// The options of a search that asks for nothing in particular: the
    /// records with their values, and no total count.
    pub fn new() -> (options: SearchOptions)
        ensures
            options == (SearchOptions {
                retrieve_records: true,
                retrieve_total_count: false,
                record: RecordOptions { retrieve_type: false, retrieve_value: true, retrieve_tags: false },
            }),
    {
        SearchOptions { retrieve_records: true, retrieve_total_count: false, record: RecordOptions::new() }
    }

    /// Reads the options of a search from their JSON text.
    pub fn from_json(json: &str) -> (r: Result<SearchOptions, WalletError>)
        ensures
            match r {
                Ok(options) => search_options_of(json_parsed(json@)) == Ok::<SearchOptions, Failure>(options),
                Err(e) => search_options_of(json_parsed(json@)) == Err::<SearchOptions, Failure>(e@),
            },
    {
        let document = match parse_options(json) {
            Err(e) => {
                return Err(e);
            },
            Ok(document) => document,
        };
        let retrieve_records = match read_flag(&document, "retrieveRecords", true) {
            Ok(flag) => flag,
            Err(e) => {
                return Err(e);
            },
        };
        let retrieve_total_count = match read_flag(&document, "retrieveTotalCount", false) {
            Ok(flag) => flag,
            Err(e) => {
                return Err(e);
            },
        };
        match read_record_options(&document) {
            Err(e) => Err(e),
            Ok(record) => Ok(
                SearchOptions {
                    retrieve_records: retrieve_records,
                    retrieve_total_count: retrieve_total_count,
                    record: record,
                },
            ),
        }
    }
}

} // verus!
