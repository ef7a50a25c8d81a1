//! Encryption of records and tags for the backend, and their decryption.

use crate::assoc::{distinct_keys, has_key, inserted, lemma_inserted_new};
use crate::crypto::{
    can_seal, create_key, decrypt, decrypted, encrypt_as_not_searchable, encrypt_as_searchable, is_blob_of,
    key_at, sealable, searchable_blob, Key, KEY_LEN,
};
use crate::errors::{text, Failure, WalletError};
use crate::language::{TagName, TagNameView};
use crate::storage::{EncryptedTags, StorageEntity, StorageEntityView, StorageValue, StorageValueView, TagValue, TagValueView};
use crate::wallet::{Keys, KeysView, Tags, WalletRecord, WalletRecordView};
use vstd::prelude::*;
use vstd::string::StrSliceExecFns;
use vstd::utf8::{decode_utf8, encode_utf8, encode_utf8_decode_utf8, encode_utf8_valid_utf8, valid_utf8};

verus! {

/// Calls `String::from_utf8` of std. Trusted: it succeeds on the bytes that
/// are valid UTF-8 and on no others, and the text that it returns is the one
/// that the bytes encode.
#[verifier::external_body]
fn string_from_utf8(bytes: Vec<u8>) -> (decoded: Option<String>)
    ensures
        decoded is Some <==> valid_utf8(bytes@),
        decoded matches Some(s) ==> s@ == decode_utf8(bytes@),
{
    String::from_utf8(bytes).ok()
}

/// Whether a tag of this name is a plain tag: the name begins with `~`.
pub open spec fn is_plain_tag(name: Seq<char>) -> bool {
    name.len() > 0 && name[0] == '~'
}

/// Whether the UTF-8 bytes of a text can be encrypted.
pub open spec fn sealable_text(text: Seq<char>) -> bool {
    sealable(encode_utf8(text))
}

/// Whether a tag can be encrypted: its name can, and so can its value
/// unless the tag is plain, whose value is stored as it is.
pub open spec fn sealable_tag(tag: (Seq<char>, Seq<char>)) -> bool {
    sealable_text(tag.0) && (is_plain_tag(tag.0) || sealable_text(tag.1))
}

/// Whether each of these tags can be encrypted.
pub open spec fn sealable_tags(tags: Seq<(Seq<char>, Seq<char>)>) -> bool {
    forall|i: int| 0 <= i < tags.len() ==> sealable_tag(#[trigger] tags[i])
}

/// The searchable blob of a text.
pub open spec fn searchable_text(text: Seq<char>, key: Seq<u8>, hmac_key: Seq<u8>) -> Seq<u8> {
    searchable_blob(encode_utf8(text), key, hmac_key)
}

/// How a tag is stored: under the searchable blob of its name, a plain tag
/// with its value as it is, any other tag with the searchable blob of its
/// value.
pub open spec fn encrypted_tag(
    tag: (Seq<char>, Seq<char>),
    tag_name_key: Seq<u8>,
    tag_value_key: Seq<u8>,
    tags_hmac_key: Seq<u8>,
) -> (Seq<u8>, TagValueView) {
    (
        searchable_text(tag.0, tag_name_key, tags_hmac_key),
        if is_plain_tag(tag.0) {
            TagValueView::Plain(tag.1)
        } else {
            TagValueView::Encrypted(searchable_text(tag.1, tag_value_key, tags_hmac_key))
        },
    )
}

/// How tags are stored: each as `encrypted_tag` has it, in the same order.
pub open spec fn encrypted_tags(
    tags: Seq<(Seq<char>, Seq<char>)>,
    tag_name_key: Seq<u8>,
    tag_value_key: Seq<u8>,
    tags_hmac_key: Seq<u8>,
) -> Seq<(Seq<u8>, TagValueView)> {
    Seq::new(tags.len(), |i: int| encrypted_tag(tags[i], tag_name_key, tag_value_key, tags_hmac_key))
}

/// How the name of a tag is written in a request to delete it.
pub open spec fn encrypted_tag_name(name: Seq<char>, tag_name_key: Seq<u8>, tags_hmac_key: Seq<u8>) -> TagNameView {
    if is_plain_tag(name) {
        TagNameView::Plain(searchable_text(name, tag_name_key, tags_hmac_key))
    } else {
        TagNameView::Encrypted(searchable_text(name, tag_name_key, tags_hmac_key))
    }
}

/// The text of the failure to decrypt a field of a record.
pub open spec fn data_rejected() -> Seq<char> {
    "Unable to decrypt data"@
}

/// The text of the failure to decrypt the name of a tag.
pub open spec fn tag_name_rejected() -> Seq<char> {
    "Unable to decrypt tag name"@
}

/// The text of the failure to decrypt the value of a tag.
pub open spec fn tag_value_rejected() -> Seq<char> {
    "Unable to decrypt tag value"@
}

/// The text of the failure to read decrypted bytes as UTF-8.
pub open spec fn not_utf8() -> Seq<char> {
    "Decrypted data is not valid UTF-8"@
}

/// The text of the failure on a record key that is not `KEY_LEN` bytes long.
pub open spec fn value_key_size() -> Seq<char> {
    "value key size"@
}

/// The text that `blob` holds under `key`: an `EncryptionError` with the text
/// `rejected` where the blob does not decrypt, and one with the text
/// `not_utf8()` where its bytes are not UTF-8.
pub open spec fn decrypted_text(blob: Seq<u8>, key: Seq<u8>, rejected: Seq<char>) -> Result<Seq<char>, Failure> {
    match decrypted(blob, key) {
        None => Err(Failure::EncryptionError(rejected)),
        Some(bytes) => if valid_utf8(bytes) {
            Ok(decode_utf8(bytes))
        } else {
            Err(Failure::EncryptionError(not_utf8()))
        },
    }
}

/// The tag that a stored tag holds: its name decrypted, its value as it is
/// for a plain tag and decrypted for any other. The name is read first.
pub open spec fn decrypted_tag(etag: (Seq<u8>, TagValueView), tag_name_key: Seq<u8>, tag_value_key: Seq<u8>) -> Result<
    (Seq<char>, Seq<char>),
    Failure,
> {
    match decrypted_text(etag.0, tag_name_key, tag_name_rejected()) {
        Err(failure) => Err(failure),
        Ok(name) => match etag.1 {
            TagValueView::Plain(value) => Ok((name, value)),
            TagValueView::Encrypted(blob) => match decrypted_text(blob, tag_value_key, tag_value_rejected()) {
                Err(failure) => Err(failure),
                Ok(value) => Ok((name, value)),
            },
        },
    }
}

/// The tags that stored tags hold. The stored tags are read in order, each
/// is set in the result as `inserted` has it, and the first that fails gives
/// the failure of the whole.
pub open spec fn decrypted_tags(
    etags: Seq<(Seq<u8>, TagValueView)>,
    tag_name_key: Seq<u8>,
    tag_value_key: Seq<u8>,
) -> Result<Seq<(Seq<char>, Seq<char>)>, Failure>
    decreases etags.len(),
{
    if etags.len() == 0 {
        Ok(Seq::empty())
    } else {
        match decrypted_tags(etags.drop_last(), tag_name_key, tag_value_key) {
            Err(failure) => Err(failure),
            Ok(tags) => match decrypted_tag(etags.last(), tag_name_key, tag_value_key) {
                Err(failure) => Err(failure),
                Ok(tag) => Ok(inserted(tags, tag.0, tag.1)),
            },
        }
    }
}

/// What optional stored tags hold: nothing where there are none.
pub open spec fn decrypted_optional_tags(
    etags: Option<Seq<(Seq<u8>, TagValueView)>>,
    tag_name_key: Seq<u8>,
    tag_value_key: Seq<u8>,
) -> Result<Option<Seq<(Seq<char>, Seq<char>)>>, Failure> {
    match etags {
        None => Ok(None),
        Some(etags) => match decrypted_tags(etags, tag_name_key, tag_value_key) {
            Err(failure) => Err(failure),
            Ok(tags) => Ok(Some(tags)),
        },
    }
}

/// Whether a stored tag opens to `tag`: its name blob decrypts to the bytes
/// of the name, and its value is the value as it is or a blob that decrypts
/// to the bytes of the value.
pub open spec fn opens_to(
    etag: (Seq<u8>, TagValueView),
    tag: (Seq<char>, Seq<char>),
    tag_name_key: Seq<u8>,
    tag_value_key: Seq<u8>,
) -> bool {
    &&& decrypted(etag.0, tag_name_key) == Some(encode_utf8(tag.0))
    &&& match etag.1 {
        TagValueView::Plain(value) => value == tag.1,
        TagValueView::Encrypted(blob) => decrypted(blob, tag_value_key) == Some(encode_utf8(tag.1)),
    }
}

/// A blob that decrypts to the bytes of a text holds that text.
pub proof fn lemma_text_round_trip(blob: Seq<u8>, key: Seq<u8>, text: Seq<char>, rejected: Seq<char>)
    requires
        decrypted(blob, key) == Some(encode_utf8(text)),
    ensures
        decrypted_text(blob, key, rejected) == Ok::<Seq<char>, Failure>(text),
{
    encode_utf8_valid_utf8(text);
    encode_utf8_decode_utf8(text);
}

/// A failure among the first stored tags is the failure of all of them.
pub proof fn lemma_decrypted_tags_failure(
    etags: Seq<(Seq<u8>, TagValueView)>,
    n: int,
    tag_name_key: Seq<u8>,
    tag_value_key: Seq<u8>,
)
    requires
        0 <= n <= etags.len(),
        decrypted_tags(etags.subrange(0, n), tag_name_key, tag_value_key) is Err,
    ensures
        decrypted_tags(etags, tag_name_key, tag_value_key) == decrypted_tags(
            etags.subrange(0, n),
            tag_name_key,
            tag_value_key,
        ),
    decreases etags.len() - n,
{
    if n == etags.len() {
        assert(etags.subrange(0, n) =~= etags);
    } else {
        assert(etags.subrange(0, n + 1).drop_last() =~= etags.subrange(0, n));
        lemma_decrypted_tags_failure(etags, n + 1, tag_name_key, tag_value_key);
    }
}

/// Stored tags that open, one by one, to tags of distinct names hold exactly
/// those tags.
pub proof fn lemma_tags_round_trip(
    etags: Seq<(Seq<u8>, TagValueView)>,
    tags: Seq<(Seq<char>, Seq<char>)>,
    tag_name_key: Seq<u8>,
    tag_value_key: Seq<u8>,
)
    requires
        distinct_keys(tags),
        etags.len() == tags.len(),
        forall|i: int| 0 <= i < tags.len() ==> opens_to(#[trigger] etags[i], tags[i], tag_name_key, tag_value_key),
    ensures
        decrypted_tags(etags, tag_name_key, tag_value_key) == Ok::<Seq<(Seq<char>, Seq<char>)>, Failure>(tags),
    decreases etags.len(),
{
    if etags.len() == 0 {
        assert(tags =~= Seq::empty());
    } else {
        let n = etags.len() - 1;
        let first_etags = etags.drop_last();
        let first_tags = tags.drop_last();
        assert forall|i: int| 0 <= i < first_tags.len() implies opens_to(
            #[trigger] first_etags[i],
            first_tags[i],
            tag_name_key,
            tag_value_key,
        ) by {
            assert(opens_to(etags[i], tags[i], tag_name_key, tag_value_key));
        }
        assert(distinct_keys(first_tags)) by {
            assert forall|i: int, j: int| 0 <= i < j < first_tags.len() implies (#[trigger] first_tags[i]).0 != (
            #[trigger] first_tags[j]).0 by {
                assert(tags[i].0 != tags[j].0);
            }
        }
        lemma_tags_round_trip(first_etags, first_tags, tag_name_key, tag_value_key);
        let etag = etags.last();
        let tag = tags.last();
        assert(opens_to(etags[n], tags[n], tag_name_key, tag_value_key));
        lemma_text_round_trip(etag.0, tag_name_key, tag.0, tag_name_rejected());
        match etag.1 {
            TagValueView::Plain(value) => {},
            TagValueView::Encrypted(blob) => {
                lemma_text_round_trip(blob, tag_value_key, tag.1, tag_value_rejected());
            },
        }
        assert(decrypted_tag(etag, tag_name_key, tag_value_key) == Ok::<(Seq<char>, Seq<char>), Failure>(tag));
        assert(!has_key(first_tags, tag.0)) by {
            if has_key(first_tags, tag.0) {
                let i = choose|i: int| 0 <= i < first_tags.len() && (#[trigger] first_tags[i]).0 == tag.0;
                assert(tags[i].0 != tags[n].0);
            }
        }
        lemma_inserted_new(first_tags, tag.0, tag.1);
        assert(first_tags.push(tag) =~= tags);
    }
}

/// Stored tags that open, one by one, to tags of distinct names have
/// distinct name blobs.
pub proof fn lemma_encrypted_names_differ(
    etags: Seq<(Seq<u8>, TagValueView)>,
    tags: Seq<(Seq<char>, Seq<char>)>,
    tag_name_key: Seq<u8>,
    tag_value_key: Seq<u8>,
)
    requires
        distinct_keys(tags),
        etags.len() == tags.len(),
        forall|i: int| 0 <= i < tags.len() ==> opens_to(#[trigger] etags[i], tags[i], tag_name_key, tag_value_key),
    ensures
        distinct_keys(etags),
{
    assert forall|i: int, j: int| 0 <= i < j < etags.len() implies (#[trigger] etags[i]).0 != (
    #[trigger] etags[j]).0 by {
        assert(opens_to(etags[i], tags[i], tag_name_key, tag_value_key));
        assert(opens_to(etags[j], tags[j], tag_name_key, tag_value_key));
        assert(tags[i].0 != tags[j].0);
        if etags[i].0 == etags[j].0 {
            encode_utf8_decode_utf8(tags[i].0);
            encode_utf8_decode_utf8(tags[j].0);
        }
    }
}

/// Whether the UTF-8 bytes of a text can be encrypted.
pub fn can_seal_text(text: &str) -> (fits: bool)
    ensures
        fits == sealable_text(text@),
{
    can_seal(text.as_bytes())
}

/// Whether each of these tags can be encrypted.
pub fn can_seal_tags(tags: &Tags) -> (fits: bool)
    ensures
        fits == sealable_tags(tags@),
{
    let mut i: usize = 0;
    while i < tags.len()
        invariant
            i <= tags@.len(),
            forall|j: int| 0 <= j < i ==> sealable_tag(#[trigger] tags@[j]),
        decreases tags@.len() - i,
    {
        let name = tags.name_at(i).as_str();
        if !can_seal_text(name) || !(is_plain(name) || can_seal_text(tags.value_at(i).as_str())) {
            assert(!sealable_tag(tags@[i as int]));
            return false;
        }
        i += 1;
    }
    true
}

/// Whether a tag of this name is a plain tag.
pub fn is_plain(name: &str) -> (plain: bool)
    ensures
        plain == is_plain_tag(name@),
{
    if name.is_empty() {
        false
    } else {
        name.get_char(0) == '~'
    }
}

/// Decrypts a blob that holds a text.
pub fn decrypt_text(blob: &[u8], key: &Key, rejected: &str) -> (r: Result<String, WalletError>)
    ensures
        match r {
            Ok(text) => decrypted_text(blob@, key@, rejected@) == Ok::<Seq<char>, Failure>(text@),
            Err(e) => decrypted_text(blob@, key@, rejected@) == Err::<Seq<char>, Failure>(e@),
        },
{
    match decrypt(blob, key) {
        Err(_) => Err(WalletError::EncryptionError(text(rejected))),
        Ok(bytes) => match string_from_utf8(bytes) {
            Some(decoded) => Ok(decoded),
            None => Err(WalletError::EncryptionError(text("Decrypted data is not valid UTF-8"))),
        },
    }
}

/// Writes the names of tags as a request to delete those tags wants them:
/// each as its searchable blob, marked plain where the name begins with `~`.
pub fn encrypt_tag_names(tag_names: &[String], tag_name_key: &Key, tags_hmac_key: &Key) -> (encrypted: Vec<
    TagName,
>)
    requires
        forall|i: int| 0 <= i < tag_names@.len() ==> sealable_text(#[trigger] tag_names@[i]@),
    ensures
        encrypted@.len() == tag_names@.len(),
        forall|i: int|
            0 <= i < tag_names@.len() ==> (#[trigger] encrypted@[i])@ == encrypted_tag_name(
                tag_names@[i]@,
                tag_name_key@,
                tags_hmac_key@,
            ),
{
    let mut encrypted_tag_names: Vec<TagName> = Vec::new();
    let mut i: usize = 0;
    while i < tag_names.len()
        invariant
            i <= tag_names@.len(),
            encrypted_tag_names@.len() == i,
            forall|j: int| 0 <= j < tag_names@.len() ==> sealable_text(#[trigger] tag_names@[j]@),
            forall|j: int|
                0 <= j < i ==> (#[trigger] encrypted_tag_names@[j])@ == encrypted_tag_name(
                    tag_names@[j]@,
                    tag_name_key@,
                    tags_hmac_key@,
                ),
        decreases tag_names@.len() - i,
    {
        let name = tag_names[i].as_str();
        assert(sealable_text(tag_names@[i as int]@));
        let encrypted_name = encrypt_as_searchable(name.as_bytes(), tag_name_key, tags_hmac_key);
        let tag_name = if is_plain(name) {
            TagName::Plain(encrypted_name)
        } else {
            TagName::Encrypted(encrypted_name)
        };
        encrypted_tag_names.push(tag_name);
        i += 1;
    }
    encrypted_tag_names
}

/// Encrypts tags for the backend: each name as its searchable blob, the
/// value of a plain tag as it is, the value of any other tag as its
/// searchable blob. The stored tags decrypt to the tags again.
pub fn encrypt_tags(tags: &Tags, tag_name_key: &Key, tag_value_key: &Key, tags_hmac_key: &Key) -> (etags:
    EncryptedTags)
    requires
        sealable_tags(tags@),
    ensures
        etags@ == encrypted_tags(tags@, tag_name_key@, tag_value_key@, tags_hmac_key@),
        distinct_keys(etags@),
        decrypted_tags(etags@, tag_name_key@, tag_value_key@) == Ok::<Seq<(Seq<char>, Seq<char>)>, Failure>(
            tags@,
        ),
{
    let mut etags = EncryptedTags::new();
    let mut i: usize = 0;
    while i < tags.len()
        invariant
            i <= tags@.len(),
            etags@.len() == i,
            sealable_tags(tags@),
            forall|j: int|
                0 <= j < i ==> (#[trigger] etags@[j]) == encrypted_tag(
                    tags@[j],
                    tag_name_key@,
                    tag_value_key@,
                    tags_hmac_key@,
                ),
            forall|j: int| 0 <= j < i ==> opens_to(#[trigger] etags@[j], tags@[j], tag_name_key@, tag_value_key@),
        decreases tags@.len() - i,
    {
        let tag_name = tags.name_at(i).as_str();
        let tag_value = tags.value_at(i).as_str();
        assert(sealable_tag(tags@[i as int]));
        let ekey = encrypt_as_searchable(tag_name.as_bytes(), tag_name_key, tags_hmac_key);
        let evalue = if is_plain(tag_name) {
            TagValue::Plain(text(tag_value))
        } else {
            TagValue::Encrypted(encrypt_as_searchable(tag_value.as_bytes(), tag_value_key, tags_hmac_key))
        };
        proof {
            use_type_invariant(tags);
            let before = etags@;
            assert(!has_key(before, ekey@)) by {
                if has_key(before, ekey@) {
                    let j = choose|j: int| 0 <= j < before.len() && (#[trigger] before[j]).0 == ekey@;
                    assert(opens_to(before[j], tags@[j], tag_name_key@, tag_value_key@));
                    encode_utf8_decode_utf8(tags@[j].0);
                    encode_utf8_decode_utf8(tags@[i as int].0);
                    assert(tags@[j].0 != tags@[i as int].0);
                }
            }
            lemma_inserted_new(before, ekey@, evalue@);
        }
        etags.insert(ekey, evalue);
        i += 1;
    }
    proof {
        use_type_invariant(tags);
        use_type_invariant(&etags);
        assert(etags@ =~= encrypted_tags(tags@, tag_name_key@, tag_value_key@, tags_hmac_key@));
        lemma_tags_round_trip(etags@, tags@, tag_name_key@, tag_value_key@);
    }
    etags
}

/// Decrypts one stored tag.
fn decrypt_tag(etag_name: &[u8], etag_value: &TagValue, tag_name_key: &Key, tag_value_key: &Key) -> (r:
    Result<(String, String), WalletError>)
    ensures
        match r {
            Ok(tag) => decrypted_tag((etag_name@, etag_value@), tag_name_key@, tag_value_key@) == Ok::<
                (Seq<char>, Seq<char>),
                Failure,
            >((tag.0@, tag.1@)),
            Err(e) => decrypted_tag((etag_name@, etag_value@), tag_name_key@, tag_value_key@) == Err::<
                (Seq<char>, Seq<char>),
                Failure,
            >(e@),
        },
{
    let tag_name = match decrypt_text(etag_name, tag_name_key, "Unable to decrypt tag name") {
        Err(e) => {
            return Err(e);
        },
        Ok(tag_name) => tag_name,
    };
    let tag_value = match etag_value {
        TagValue::Plain(plain_value) => plain_value.clone(),
        TagValue::Encrypted(evalue) => match decrypt_text(
            evalue.as_slice(),
            tag_value_key,
            "Unable to decrypt tag value",
        ) {
            Err(e) => {
                return Err(e);
            },
            Ok(tag_value) => tag_value,
        },
    };
    Ok((tag_name, tag_value))
}

/// Decrypts stored tags. The first tag that does not decrypt, or does not
/// hold UTF-8, fails the whole call.
pub fn decrypt_all_tags(etags: &EncryptedTags, tag_name_key: &Key, tag_value_key: &Key) -> (r: Result<
    Tags,
    WalletError,
>)
    ensures
        match r {
            Ok(tags) => decrypted_tags(etags@, tag_name_key@, tag_value_key@) == Ok::<
                Seq<(Seq<char>, Seq<char>)>,
                Failure,
            >(tags@),
            Err(e) => decrypted_tags(etags@, tag_name_key@, tag_value_key@) == Err::<
                Seq<(Seq<char>, Seq<char>)>,
                Failure,
            >(e@),
        },
{
    let mut tags = Tags::new();
    let mut i: usize = 0;
    assert(etags@.subrange(0, 0) =~= Seq::empty());
    while i < etags.len()
        invariant
            i <= etags@.len(),
            decrypted_tags(etags@.subrange(0, i as int), tag_name_key@, tag_value_key@) == Ok::<
                Seq<(Seq<char>, Seq<char>)>,
                Failure,
            >(tags@),
        decreases etags@.len() - i,
    {
        let ghost first = etags@.subrange(0, i + 1);
        assert(first.drop_last() =~= etags@.subrange(0, i as int));
        assert(first.last() == etags@[i as int]);
        match decrypt_tag(etags.name_at(i).as_slice(), etags.value_at(i), tag_name_key, tag_value_key) {
            Err(e) => {
                proof {
                    assert(decrypted_tags(first, tag_name_key@, tag_value_key@) == Err::<
                        Seq<(Seq<char>, Seq<char>)>,
                        Failure,
                    >(e@));
                    lemma_decrypted_tags_failure(etags@, i + 1, tag_name_key@, tag_value_key@);
                }
                return Err(e);
            },
            Ok(tag) => {
                tags.insert(tag.0, tag.1);
            },
        }
        i += 1;
    }
    assert(etags@.subrange(0, i as int) =~= etags@);
    Ok(tags)
}

/// Decrypts the stored tags of a record, if it has any.
pub fn decrypt_tags(etags: &Option<EncryptedTags>, tag_name_key: &Key, tag_value_key: &Key) -> (r: Result<
    Option<Tags>,
    WalletError,
>)
    ensures
        match r {
            Ok(tags) => decrypted_optional_tags(tags_of(*etags), tag_name_key@, tag_value_key@) == Ok::<
                Option<Seq<(Seq<char>, Seq<char>)>>,
                Failure,
            >(plain_tags_of(tags)),
            Err(e) => decrypted_optional_tags(tags_of(*etags), tag_name_key@, tag_value_key@) == Err::<
                Option<Seq<(Seq<char>, Seq<char>)>>,
                Failure,
            >(e@),
        },
{
    match etags {
        None => Ok(None),
        Some(etags) => match decrypt_all_tags(etags, tag_name_key, tag_value_key) {
            Ok(tags) => Ok(Some(tags)),
            Err(e) => Err(e),
        },
    }
}

/// The stored tags of an optional map of stored tags.
pub open spec fn tags_of(etags: Option<EncryptedTags>) -> Option<Seq<(Seq<u8>, TagValueView)>> {
    match etags {
        Some(etags) => Some(etags@),
        None => None,
    }
}

/// The tags of an optional map of tags.
pub open spec fn plain_tags_of(tags: Option<Tags>) -> Option<Seq<(Seq<char>, Seq<char>)>> {
    match tags {
        Some(tags) => Some(tags@),
        None => None,
    }
}

/// The text that a stored value holds: its record key is unwrapped under
/// `value_key` first and must be `KEY_LEN` bytes long, then the data is
/// decrypted under the record key.
pub open spec fn decrypted_value(value: StorageValueView, value_key: Seq<u8>) -> Result<Seq<char>, Failure> {
    match decrypted(value.key, value_key) {
        None => Err(Failure::EncryptionError(data_rejected())),
        Some(record_key) => if record_key.len() != KEY_LEN {
            Err(Failure::EncryptionError(value_key_size()))
        } else {
            decrypted_text(value.data, record_key, data_rejected())
        },
    }
}

/// What an optional stored value holds: nothing where there is none.
pub open spec fn decrypted_optional_value(value: Option<StorageValueView>, value_key: Seq<u8>) -> Result<
    Option<Seq<char>>,
    Failure,
> {
    match value {
        None => Ok(None),
        Some(value) => match decrypted_value(value, value_key) {
            Err(failure) => Err(failure),
            Ok(text) => Ok(Some(text)),
        },
    }
}

/// What an optional blob of a text holds: nothing where there is none.
pub open spec fn decrypted_optional_text(blob: Option<Seq<u8>>, key: Seq<u8>) -> Result<
    Option<Seq<char>>,
    Failure,
> {
    match blob {
        None => Ok(None),
        Some(blob) => match decrypted_text(blob, key, data_rejected()) {
            Err(failure) => Err(failure),
            Ok(text) => Ok(Some(text)),
        },
    }
}

/// The record that a row holds. The name is read first, then the value,
/// then the type, then the tags; the first that fails gives the failure.
pub open spec fn decrypted_record(entity: StorageEntityView, keys: KeysView) -> Result<WalletRecordView, Failure> {
    match decrypted_text(entity.name, keys.name_key, data_rejected()) {
        Err(failure) => Err(failure),
        Ok(name) => match decrypted_optional_value(entity.value, keys.value_key) {
            Err(failure) => Err(failure),
            Ok(value) => match decrypted_optional_text(entity.type_, keys.type_key) {
                Err(failure) => Err(failure),
                Ok(type_) => match decrypted_optional_tags(entity.tags, keys.tag_name_key, keys.tag_value_key) {
                    Err(failure) => Err(failure),
                    Ok(tags) => Ok(WalletRecordView { name: name, type_: type_, value: value, tags: tags }),
                },
            },
        },
    }
}

/// Whether a stored value holds `text`: its data is the text sealed under
/// some record key, and its key is that record key sealed under `value_key`.
pub open spec fn is_value_of(value: StorageValueView, text: Seq<char>, value_key: Seq<u8>) -> bool {
    exists|record_key: Seq<u8>|
        record_key.len() == KEY_LEN && #[trigger] is_blob_of(value.data, encode_utf8(text), record_key)
            && is_blob_of(value.key, record_key, value_key)
}

/// The characters of an optional text.
pub open spec fn str_of(text: Option<&str>) -> Option<Seq<char>> {
    match text {
        Some(text) => Some(text@),
        None => None,
    }
}

/// How a record is stored: the name and the type as their searchable blobs,
/// the value in an envelope of its own, the tags as `encrypted_tags` has them.
pub open spec fn is_record_of(
    entity: StorageEntityView,
    name: Seq<char>,
    type_: Option<Seq<char>>,
    value: Option<Seq<char>>,
    tags: Seq<(Seq<char>, Seq<char>)>,
    keys: KeysView,
) -> bool {
    &&& entity.name == searchable_text(name, keys.name_key, keys.item_hmac_key)
    &&& entity.type_ == match type_ {
        Some(type_) => Some(searchable_text(type_, keys.type_key, keys.item_hmac_key)),
        None => None,
    }
    &&& match value {
        Some(text) => entity.value matches Some(stored) && is_value_of(stored, text, keys.value_key),
        None => entity.value is None,
    }
    &&& entity.tags == Some(encrypted_tags(tags, keys.tag_name_key, keys.tag_value_key, keys.tags_hmac_key))
}

/// Encrypts a value for the backend under a fresh random record key, and
/// wraps that key under `value_key`. The stored value decrypts to the value
/// again.
pub fn encrypt_value(value: &str, value_key: &Key) -> (stored: StorageValue)
    requires
        sealable_text(value@),
    ensures
        is_value_of(stored@, value@, value_key@),
        decrypted_value(stored@, value_key@) == Ok::<Seq<char>, Failure>(value@),
{
    let record_key = create_key();
    let data = encrypt_as_not_searchable(value.as_bytes(), &record_key);
    let key = encrypt_as_not_searchable(record_key.as_slice(), value_key);
    proof {
        lemma_text_round_trip(data@, record_key@, value@, data_rejected());
        assert(is_blob_of(data@, encode_utf8(value@), record_key@));
    }
    StorageValue::new(data, key)
}

/// Encrypts a record for the backend. The row decrypts to the record again.
pub fn encrypt_record(name: &str, type_: Option<&str>, value: Option<&str>, tags: &Tags, keys: &Keys) -> (entity:
    StorageEntity)
    requires
        sealable_text(name@),
        type_ matches Some(text) ==> sealable_text(text@),
        value matches Some(text) ==> sealable_text(text@),
        sealable_tags(tags@),
    ensures
        is_record_of(entity@, name@, str_of(type_), str_of(value), tags@, keys@),
        decrypted_record(entity@, keys@) == Ok::<WalletRecordView, Failure>(
            WalletRecordView { name: name@, type_: str_of(type_), value: str_of(value), tags: Some(tags@) },
        ),
{
    let encrypted_name = encrypt_as_searchable(name.as_bytes(), &keys.name_key, &keys.item_hmac_key);
    let encrypted_type = match type_ {
        Some(text) => Some(encrypt_as_searchable(text.as_bytes(), &keys.type_key, &keys.item_hmac_key)),
        None => None,
    };
    let encrypted_value = match value {
        Some(text) => Some(encrypt_value(text, &keys.value_key)),
        None => None,
    };
    let encrypted_tags = encrypt_tags(tags, &keys.tag_name_key, &keys.tag_value_key, &keys.tags_hmac_key);
    proof {
        lemma_text_round_trip(encrypted_name@, keys.name_key@, name@, data_rejected());
        if let Some(text) = type_ {
            lemma_text_round_trip(encrypted_type->Some_0@, keys.type_key@, text@, data_rejected());
        }
    }
    StorageEntity::new(encrypted_name, encrypted_value, encrypted_type, Some(encrypted_tags))
}

/// Whether a row holds a field that does not decrypt: its name, its type,
/// its value or one of its tags.
pub open spec fn holds_rejected_field(entity: StorageEntityView, keys: KeysView) -> bool {
    ||| decrypted_text(entity.name, keys.name_key, data_rejected()) is Err
    ||| decrypted_optional_value(entity.value, keys.value_key) is Err
    ||| decrypted_optional_text(entity.type_, keys.type_key) is Err
    ||| entity.tags matches Some(etags) && exists|i: int|
        0 <= i < etags.len() && decrypted_tag(#[trigger] etags[i], keys.tag_name_key, keys.tag_value_key) is Err
}

/// Stored tags decrypt all or not at all: one stored tag that does not
/// decrypt fails them all, and every failure is an `EncryptionError`.
pub proof fn lemma_rejected_tag_fails_all(
    etags: Seq<(Seq<u8>, TagValueView)>,
    at: int,
    tag_name_key: Seq<u8>,
    tag_value_key: Seq<u8>,
)
    requires
        0 <= at < etags.len(),
        decrypted_tag(etags[at], tag_name_key, tag_value_key) is Err,
    ensures
        decrypted_tags(etags, tag_name_key, tag_value_key) matches Err(failure) && failure is EncryptionError,
    decreases etags.len(),
{
    lemma_tag_failures_are_encryption_errors(etags, tag_name_key, tag_value_key);
    if at < etags.len() - 1 {
        assert(etags.drop_last()[at] == etags[at]);
        lemma_rejected_tag_fails_all(etags.drop_last(), at, tag_name_key, tag_value_key);
    }
}

/// Every failure to decrypt stored tags is an `EncryptionError`.
pub proof fn lemma_tag_failures_are_encryption_errors(
    etags: Seq<(Seq<u8>, TagValueView)>,
    tag_name_key: Seq<u8>,
    tag_value_key: Seq<u8>,
)
    ensures
        decrypted_tags(etags, tag_name_key, tag_value_key) matches Err(failure) ==> failure is EncryptionError,
    decreases etags.len(),
{
    if etags.len() > 0 {
        lemma_tag_failures_are_encryption_errors(etags.drop_last(), tag_name_key, tag_value_key);
    }
}

/// A row decrypts to a record or fails as a whole: where any field of it does
/// not decrypt there is no record, and every failure is an
/// `EncryptionError`.
pub proof fn lemma_rejected_field_fails_record(entity: StorageEntityView, keys: KeysView)
    ensures
        holds_rejected_field(entity, keys) ==> decrypted_record(entity, keys) is Err,
        decrypted_record(entity, keys) matches Err(failure) ==> failure is EncryptionError,
{
    if let Some(etags) = entity.tags {
        lemma_tag_failures_are_encryption_errors(etags, keys.tag_name_key, keys.tag_value_key);
        if exists|i: int|
            0 <= i < etags.len() && decrypted_tag(#[trigger] etags[i], keys.tag_name_key, keys.tag_value_key) is Err {
            let i = choose|i: int|
                0 <= i < etags.len() && decrypted_tag(#[trigger] etags[i], keys.tag_name_key, keys.tag_value_key)
                    is Err;
            lemma_rejected_tag_fails_all(etags, i, keys.tag_name_key, keys.tag_value_key);
        }
    }
}

/// Decrypts a stored value.
pub fn decrypt_value(value: &StorageValue, value_key: &Key) -> (r: Result<String, WalletError>)
    ensures
        match r {
            Ok(text) => decrypted_value(value@, value_key@) == Ok::<Seq<char>, Failure>(text@),
            Err(e) => decrypted_value(value@, value_key@) == Err::<Seq<char>, Failure>(e@),
        },
{
    let decrypted_value_key = match decrypt(value.key.as_slice(), value_key) {
        Err(_) => {
            return Err(WalletError::EncryptionError(text("Unable to decrypt data")));
        },
        Ok(bytes) => bytes,
    };
    if decrypted_value_key.len() != KEY_LEN {
        return Err(WalletError::EncryptionError(text("value key size")));
    }
    let record_key = key_at(decrypted_value_key.as_slice(), 0);
    assert(record_key@ =~= decrypted_value_key@);
    decrypt_text(value.data.as_slice(), &record_key, "Unable to decrypt data")
}

/// Decrypts the optional stored value of a row.
pub fn decrypt_optional_value(value: &Option<StorageValue>, value_key: &Key) -> (r: Result<
    Option<String>,
    WalletError,
>)
    ensures
        match r {
            Ok(text) => decrypted_optional_value(value_of(*value), value_key@) == Ok::<
                Option<Seq<char>>,
                Failure,
            >(crate::wallet::text_of(text)),
            Err(e) => decrypted_optional_value(value_of(*value), value_key@) == Err::<
                Option<Seq<char>>,
                Failure,
            >(e@),
        },
{
    match value {
        None => Ok(None),
        Some(value) => match decrypt_value(value, value_key) {
            Ok(text) => Ok(Some(text)),
            Err(e) => Err(e),
        },
    }
}

/// The view of an optional stored value.
pub open spec fn value_of(value: Option<StorageValue>) -> Option<StorageValueView> {
    match value {
        Some(value) => Some(value@),
        None => None,
    }
}

/// Decrypts a row of the backend into the record that it holds. Any field
/// that does not decrypt, or does not hold UTF-8, fails the call.
pub fn decrypt_storage_record(record: &StorageEntity, keys: &Keys) -> (r: Result<WalletRecord, WalletError>)
    ensures
        match r {
            Ok(decrypted) => decrypted_record(record@, keys@) == Ok::<WalletRecordView, Failure>(decrypted@),
            Err(e) => decrypted_record(record@, keys@) == Err::<WalletRecordView, Failure>(e@),
        },
{
    let decrypted_name = match decrypt_text(record.name.as_slice(), &keys.name_key, "Unable to decrypt data") {
        Err(e) => {
            return Err(e);
        },
        Ok(name) => name,
    };
    let decrypted_value = match decrypt_optional_value(&record.value, &keys.value_key) {
        Err(e) => {
            return Err(e);
        },
        Ok(value) => value,
    };
    let decrypted_type = match &record.type_ {
        Some(type_) => match decrypt_text(type_.as_slice(), &keys.type_key, "Unable to decrypt data") {
            Err(e) => {
                return Err(e);
            },
            Ok(type_) => Some(type_),
        },
        None => None,
    };
    let decrypted_tags = match decrypt_tags(&record.tags, &keys.tag_name_key, &keys.tag_value_key) {
        Err(e) => {
            return Err(e);
        },
        Ok(tags) => tags,
    };
    Ok(WalletRecord::new(decrypted_name, decrypted_type, decrypted_value, decrypted_tags))
}

} // verus!
