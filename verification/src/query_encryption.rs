//! The rewriting of a query over tags as their owner wrote them into the
//! query over stored tags that a backend can evaluate. Only the leaves
//! change: a tag name becomes its searchable blob, and the value compared
//! with an encrypted tag becomes the searchable blob of that value. The value
//! compared with a plain tag stays as it is, since a backend holds the values
//! of plain tags unencrypted.

use crate::crypto::{can_seal, encrypt_as_searchable, sealable, searchable_blob};
use crate::encryption::{can_seal_text, sealable_text, searchable_text};
use crate::language::{query_of, target_values_view, Operator, Query, TagName, TagNameView, TargetValue, TargetValueView};
use crate::wallet::{Keys, KeysView};
use vstd::prelude::*;

verus! {

/// The bytes of a tag name.
pub open spec fn name_bytes(name: TagNameView) -> Seq<u8> {
    match name {
        TagNameView::Encrypted(bytes) => bytes,
        TagNameView::Plain(bytes) => bytes,
    }
}

/// Whether a comparison on this name with this value can be rewritten: the
/// value is text, the name can be encrypted, and so can the text unless the
/// tag is plain, whose text stays as it is.
pub open spec fn plain_pair(name: TagNameView, value: TargetValueView) -> bool {
    &&& sealable(name_bytes(name))
    &&& value matches TargetValueView::Unencrypted(text)
    &&& (name is Plain || sealable_text(text))
}

/// Whether a query can be rewritten: every value in it is text, and every
/// name in it and every text compared with an encrypted tag can be
/// encrypted.
pub open spec fn plain_query(query: Query) -> bool
    decreases query,
{
    match query {
        Query::And(queries) => forall|i: int| 0 <= i < queries.len() ==> plain_query(#[trigger] queries[i]),
        Query::Or(queries) => forall|i: int| 0 <= i < queries.len() ==> plain_query(#[trigger] queries[i]),
        Query::Not(query) => plain_query(*query),
        Query::Eq(name, value) => plain_pair(name, value),
        Query::Neq(name, value) => plain_pair(name, value),
        Query::Gt(name, value) => plain_pair(name, value),
        Query::Gte(name, value) => plain_pair(name, value),
        Query::Lt(name, value) => plain_pair(name, value),
        Query::Lte(name, value) => plain_pair(name, value),
        Query::Like(name, value) => plain_pair(name, value),
        Query::Regex(name, value) => plain_pair(name, value),
        Query::In(name, values) => sealable(name_bytes(name)) && forall|i: int|
            0 <= i < values.len() ==> plain_pair(name, #[trigger] values[i]),
    }
}

/// A tag name rewritten: the searchable blob of its bytes, in the same
/// variant.
pub open spec fn rewritten_name(name: TagNameView, keys: KeysView) -> TagNameView {
    match name {
        TagNameView::Encrypted(bytes) => TagNameView::Encrypted(
            searchable_blob(bytes, keys.tag_name_key, keys.tags_hmac_key),
        ),
        TagNameView::Plain(bytes) => TagNameView::Plain(
            searchable_blob(bytes, keys.tag_name_key, keys.tags_hmac_key),
        ),
    }
}

/// A value rewritten for a comparison on `name`: text compared with an
/// encrypted tag becomes its searchable blob, and anything else stays.
pub open spec fn rewritten_value(name: TagNameView, value: TargetValueView, keys: KeysView) -> TargetValueView {
    match (name, value) {
        (TagNameView::Encrypted(_), TargetValueView::Unencrypted(text)) => TargetValueView::Encrypted(
            searchable_text(text, keys.tag_value_key, keys.tags_hmac_key),
        ),
        _ => value,
    }
}

/// The values of an `In` rewritten, each by itself, in the same order.
pub open spec fn rewritten_values(name: TagNameView, values: Seq<TargetValueView>, keys: KeysView) -> Seq<
    TargetValueView,
> {
    Seq::new(values.len(), |i: int| rewritten_value(name, values[i], keys))
}

/// A comparison rewritten. `And`, `Or` and `Not` stay as they are.
pub open spec fn rewritten_operator(query: Query, keys: KeysView) -> Query {
    match query {
        Query::Eq(name, value) => Query::Eq(rewritten_name(name, keys), rewritten_value(name, value, keys)),
        Query::Neq(name, value) => Query::Neq(rewritten_name(name, keys), rewritten_value(name, value, keys)),
        Query::Gt(name, value) => Query::Gt(rewritten_name(name, keys), rewritten_value(name, value, keys)),
        Query::Gte(name, value) => Query::Gte(rewritten_name(name, keys), rewritten_value(name, value, keys)),
        Query::Lt(name, value) => Query::Lt(rewritten_name(name, keys), rewritten_value(name, value, keys)),
        Query::Lte(name, value) => Query::Lte(rewritten_name(name, keys), rewritten_value(name, value, keys)),
        Query::Like(name, value) => Query::Like(rewritten_name(name, keys), rewritten_value(name, value, keys)),
        Query::Regex(name, value) => Query::Regex(
            rewritten_name(name, keys),
            rewritten_value(name, value, keys),
        ),
        Query::In(name, values) => Query::In(rewritten_name(name, keys), rewritten_values(name, values, keys)),
        _ => query,
    }
}

/// A query rewritten: every comparison in it as `rewritten_operator` has it,
/// under the same `And`, `Or` and `Not`.
pub open spec fn rewritten_query(query: Query, keys: KeysView) -> Query
    decreases query,
{
    match query {
        Query::And(queries) => Query::And(
            Seq::new(
                queries.len(),
                |i: int|
                    if 0 <= i < queries.len() {
                        rewritten_query(queries[i], keys)
                    } else {
                        arbitrary()
                    },
            ),
        ),
        Query::Or(queries) => Query::Or(
            Seq::new(
                queries.len(),
                |i: int|
                    if 0 <= i < queries.len() {
                        rewritten_query(queries[i], keys)
                    } else {
                        arbitrary()
                    },
            ),
        ),
        Query::Not(query) => Query::Not(Box::new(rewritten_query(*query, keys))),
        _ => rewritten_operator(query, keys),
    }
}

/// Whether two queries have the same shape: the same operator at the top,
/// as many operands or values under it, and operands of the same shape.
pub open spec fn same_shape(a: Query, b: Query) -> bool
    decreases a,
{
    match (a, b) {
        (Query::And(xs), Query::And(ys)) => xs.len() == ys.len() && forall|i: int|
            0 <= i < xs.len() ==> same_shape(#[trigger] xs[i], ys[i]),
        (Query::Or(xs), Query::Or(ys)) => xs.len() == ys.len() && forall|i: int|
            0 <= i < xs.len() ==> same_shape(#[trigger] xs[i], ys[i]),
        (Query::Not(x), Query::Not(y)) => same_shape(*x, *y),
        (Query::Eq(_, _), Query::Eq(_, _)) => true,
        (Query::Neq(_, _), Query::Neq(_, _)) => true,
        (Query::Gt(_, _), Query::Gt(_, _)) => true,
        (Query::Gte(_, _), Query::Gte(_, _)) => true,
        (Query::Lt(_, _), Query::Lt(_, _)) => true,
        (Query::Lte(_, _), Query::Lte(_, _)) => true,
        (Query::Like(_, _), Query::Like(_, _)) => true,
        (Query::Regex(_, _), Query::Regex(_, _)) => true,
        (Query::In(_, xs), Query::In(_, ys)) => xs.len() == ys.len(),
        _ => false,
    }
}

/// The name that a comparison is about.
pub open spec fn leaf_name(query: Query) -> Option<TagNameView> {
    match query {
        Query::Eq(name, _) => Some(name),
        Query::Neq(name, _) => Some(name),
        Query::Gt(name, _) => Some(name),
        Query::Gte(name, _) => Some(name),
        Query::Lt(name, _) => Some(name),
        Query::Lte(name, _) => Some(name),
        Query::Like(name, _) => Some(name),
        Query::Regex(name, _) => Some(name),
        Query::In(name, _) => Some(name),
        _ => None,
    }
}

/// The values that a comparison compares its tag with.
pub open spec fn leaf_values(query: Query) -> Seq<TargetValueView> {
    match query {
        Query::Eq(_, value) => seq![value],
        Query::Neq(_, value) => seq![value],
        Query::Gt(_, value) => seq![value],
        Query::Gte(_, value) => seq![value],
        Query::Lt(_, value) => seq![value],
        Query::Lte(_, value) => seq![value],
        Query::Like(_, value) => seq![value],
        Query::Regex(_, value) => seq![value],
        Query::In(_, values) => values,
        _ => Seq::empty(),
    }
}

/// The comparisons of a query, from left to right.
pub open spec fn leaves(query: Query) -> Seq<Query>
    decreases query,
{
    match query {
        Query::And(queries) => leaves_of_all(queries),
        Query::Or(queries) => leaves_of_all(queries),
        Query::Not(query) => leaves(*query),
        _ => seq![query],
    }
}

/// The comparisons of a sequence of queries, from left to right.
pub open spec fn leaves_of_all(queries: Seq<Query>) -> Seq<Query>
    decreases queries,
{
    if queries.len() == 0 {
        Seq::empty()
    } else {
        leaves_of_all(queries.drop_last()) + leaves(queries.last())
    }
}

/// A sequence of comparisons rewritten, each by itself, in the same order.
pub open spec fn rewritten_operators(comparisons: Seq<Query>, keys: KeysView) -> Seq<Query> {
    Seq::new(comparisons.len(), |i: int| rewritten_operator(comparisons[i], keys))
}

/// Rewriting keeps the shape of a query: the same operators stand in the
/// same places, and only the names and values in the leaves change.
pub proof fn lemma_rewriting_keeps_shape(query: Query, keys: KeysView)
    ensures
        same_shape(query, rewritten_query(query, keys)),
    decreases query,
{
    match query {
        Query::And(queries) => {
            assert forall|i: int| 0 <= i < queries.len() implies same_shape(
                #[trigger] queries[i],
                rewritten_query(query, keys)->And_0[i],
            ) by {
                lemma_rewriting_keeps_shape(queries[i], keys);
            }
        },
        Query::Or(queries) => {
            assert forall|i: int| 0 <= i < queries.len() implies same_shape(
                #[trigger] queries[i],
                rewritten_query(query, keys)->Or_0[i],
            ) by {
                lemma_rewriting_keeps_shape(queries[i], keys);
            }
        },
        Query::Not(inner) => {
            lemma_rewriting_keeps_shape(*inner, keys);
        },
        _ => {},
    }
}

/// Rewriting a comparison on a plain tag keeps its values: each is what the
/// caller wrote, so text stays the same text, unencrypted; and the name
/// stays plain.
pub proof fn lemma_plain_tag_values_kept(query: Query, keys: KeysView)
    requires
        leaf_name(query) matches Some(name) && name is Plain,
    ensures
        leaf_values(rewritten_operator(query, keys)) == leaf_values(query),
        leaf_name(rewritten_operator(query, keys)) matches Some(name) && name is Plain,
        rewritten_query(query, keys) == rewritten_operator(query, keys),
{
    match query {
        Query::In(name, values) => {
            assert(rewritten_values(name, values, keys) =~= values);
        },
        _ => {},
    }
}

/// Rewriting changes the comparisons of a query and nothing else: the
/// comparisons of the rewritten query are the comparisons of the query,
/// each rewritten by itself, in the same order.
pub proof fn lemma_rewriting_changes_leaves_only(query: Query, keys: KeysView)
    ensures
        leaves(rewritten_query(query, keys)) == rewritten_operators(leaves(query), keys),
    decreases query,
{
    match query {
        Query::And(queries) => {
            lemma_rewriting_changes_leaves_of_all(queries, rewritten_query(query, keys)->And_0, keys);
        },
        Query::Or(queries) => {
            lemma_rewriting_changes_leaves_of_all(queries, rewritten_query(query, keys)->Or_0, keys);
        },
        Query::Not(inner) => {
            lemma_rewriting_changes_leaves_only(*inner, keys);
        },
        _ => {
            assert(leaves(rewritten_query(query, keys)) =~= rewritten_operators(leaves(query), keys));
        },
    }
}

/// The comparisons of queries rewritten one by one are the comparisons of
/// the queries, each rewritten by itself, in the same order.
pub proof fn lemma_rewriting_changes_leaves_of_all(queries: Seq<Query>, rewritten: Seq<Query>, keys: KeysView)
    requires
        rewritten.len() == queries.len(),
        forall|i: int| 0 <= i < queries.len() ==> #[trigger] rewritten[i] == rewritten_query(queries[i], keys),
    ensures
        leaves_of_all(rewritten) == rewritten_operators(leaves_of_all(queries), keys),
    decreases queries,
{
    if queries.len() == 0 {
        assert(leaves_of_all(rewritten) =~= rewritten_operators(leaves_of_all(queries), keys));
    } else {
        let n = queries.len() - 1;
        assert(rewritten.last() == rewritten[n]);
        assert forall|i: int| 0 <= i < queries.drop_last().len() implies #[trigger] rewritten.drop_last()[i]
            == rewritten_query(queries.drop_last()[i], keys) by {
            assert(rewritten.drop_last()[i] == rewritten[i]);
        }
        lemma_rewriting_changes_leaves_of_all(queries.drop_last(), rewritten.drop_last(), keys);
        lemma_rewriting_changes_leaves_only(queries.last(), keys);
        assert(leaves_of_all(rewritten) =~= rewritten_operators(leaves_of_all(queries), keys));
    }
}

/// Whether a single operator can be rewritten: a comparison as
/// `plain_query` has it; `And`, `Or` and `Not` always, as they stay.
pub open spec fn plain_operator(query: Query) -> bool {
    match query {
        Query::And(_) => true,
        Query::Or(_) => true,
        Query::Not(_) => true,
        _ => plain_query(query),
    }
}

/// Whether a comparison on this name with this value can be rewritten.
fn is_plain_pair(name: &TagName, value: &TargetValue) -> (plain: bool)
    ensures
        plain == plain_pair(name@, value@),
{
    match value {
        TargetValue::Unencrypted(text) => match name {
            TagName::Encrypted(bytes) => can_seal(bytes.as_slice()) && can_seal_text(text.as_str()),
            TagName::Plain(bytes) => can_seal(bytes.as_slice()),
        },
        TargetValue::Encrypted(_) => false,
    }
}

/// Whether the name of an `In` and each of its values can be rewritten.
fn are_plain_values(name: &TagName, values: &Vec<TargetValue>) -> (plain: bool)
    ensures
        plain == (sealable(name_bytes(name@)) && forall|i: int|
            0 <= i < values@.len() ==> plain_pair(name@, (#[trigger] values@[i])@)),
{
    let name_fits = match name {
        TagName::Encrypted(bytes) => can_seal(bytes.as_slice()),
        TagName::Plain(bytes) => can_seal(bytes.as_slice()),
    };
    if !name_fits {
        return false;
    }
    let mut i: usize = 0;
    while i < values.len()
        invariant
            i <= values@.len(),
            forall|j: int| 0 <= j < i ==> plain_pair(name@, (#[trigger] values@[j])@),
        decreases values@.len() - i,
    {
        if !is_plain_pair(name, &values[i]) {
            return false;
        }
        i += 1;
    }
    true
}

/// Whether every operand of an `And` or an `Or` can be rewritten.
fn are_plain_queries(operators: &Vec<Operator>) -> (plain: bool)
    ensures
        plain == forall|i: int| 0 <= i < operators@.len() ==> plain_query((#[trigger] operators@[i])@),
    decreases operators,
{
    let mut i: usize = 0;
    while i < operators.len()
        invariant
            i <= operators@.len(),
            forall|j: int| 0 <= j < i ==> plain_query((#[trigger] operators@[j])@),
        decreases operators@.len() - i,
    {
        if !is_plain_query(&operators[i]) {
            return false;
        }
        i += 1;
    }
    true
}

/// Whether a query can be rewritten: every value in it is text, and every
/// name in it and every text compared with an encrypted tag can be
/// encrypted.
pub fn is_plain_query(operator: &Operator) -> (plain: bool)
    ensures
        plain == plain_query(operator@),
    decreases operator,
{
    match operator {
        Operator::And(operators) => {
            let plain = are_plain_queries(operators);
            proof {
                let queries = operator@->And_0;
                assert(queries.len() == operators@.len());
                if plain {
                    assert forall|i: int| 0 <= i < queries.len() implies plain_query(#[trigger] queries[i]) by {
                        assert(plain_query(operators@[i]@));
                    }
                } else {
                    let i = choose|i: int| 0 <= i < operators@.len() && !plain_query((#[trigger] operators@[i])@);
                    assert(queries[i] == operators@[i]@);
                }
            }
            plain
        },
        Operator::Or(operators) => {
            let plain = are_plain_queries(operators);
            proof {
                let queries = operator@->Or_0;
                assert(queries.len() == operators@.len());
                if plain {
                    assert forall|i: int| 0 <= i < queries.len() implies plain_query(#[trigger] queries[i]) by {
                        assert(plain_query(operators@[i]@));
                    }
                } else {
                    let i = choose|i: int| 0 <= i < operators@.len() && !plain_query((#[trigger] operators@[i])@);
                    assert(queries[i] == operators@[i]@);
                }
            }
            plain
        },
        Operator::Not(inner) => is_plain_query(inner),
        Operator::Eq(name, value) => is_plain_pair(name, value),
        Operator::Neq(name, value) => is_plain_pair(name, value),
        Operator::Gt(name, value) => is_plain_pair(name, value),
        Operator::Gte(name, value) => is_plain_pair(name, value),
        Operator::Lt(name, value) => is_plain_pair(name, value),
        Operator::Lte(name, value) => is_plain_pair(name, value),
        Operator::Like(name, value) => is_plain_pair(name, value),
        Operator::Regex(name, value) => is_plain_pair(name, value),
        Operator::In(name, values) => {
            let plain = are_plain_values(name, values);
            proof {
                let views = target_values_view(values@);
                assert(operator@ == Query::In(name@, views));
                if plain {
                    assert forall|i: int| 0 <= i < views.len() implies plain_pair(name@, #[trigger] views[i]) by {
                        assert(plain_pair(name@, values@[i]@));
                    }
                } else if sealable(name_bytes(name@)) {
                    let i = choose|i: int| 0 <= i < values@.len() && !plain_pair(name@, (#[trigger] values@[i])@);
                    assert(operator@->In_1[i] == values@[i]@);
                    if plain_query(operator@) {
                        assert(plain_pair(name@, operator@->In_1[i]));
                    }
                }
            }
            plain
        },
    }
}

/// Encrypts the name of a tag in a query.
fn encrypt_tag_name(name: &TagName, keys: &Keys) -> (encrypted: TagName)
    requires
        sealable(name_bytes(name@)),
    ensures
        encrypted@ == rewritten_name(name@, keys@),
{
    match name {
        TagName::Encrypted(bytes) => TagName::Encrypted(
            encrypt_as_searchable(bytes.as_slice(), &keys.tag_name_key, &keys.tags_hmac_key),
        ),
        TagName::Plain(bytes) => TagName::Plain(
            encrypt_as_searchable(bytes.as_slice(), &keys.tag_name_key, &keys.tags_hmac_key),
        ),
    }
}

/// Encrypts the value that a query compares the tag `name` with.
fn encrypt_target_value(name: &TagName, value: &TargetValue, keys: &Keys) -> (encrypted: TargetValue)
    requires
        plain_pair(name@, value@),
    ensures
        encrypted@ == rewritten_value(name@, value@, keys@),
{
    match value {
        TargetValue::Unencrypted(text) => match name {
            TagName::Encrypted(_) => TargetValue::Encrypted(
                encrypt_as_searchable(text.as_str().as_bytes(), &keys.tag_value_key, &keys.tags_hmac_key),
            ),
            TagName::Plain(_) => TargetValue::Unencrypted(text.clone()),
        },
        TargetValue::Encrypted(blob) => {
            assert(false);
            TargetValue::Encrypted(crate::storage::copy_bytes(blob.as_slice()))
        },
    }
}

/// Encrypts a single tag name, tag value pair. For an encrypted tag both the
/// name and the value are encrypted, for a plain tag only the name.
pub fn encrypt_name_value(name: &TagName, value: TargetValue, keys: &Keys) -> (encrypted: (TagName, TargetValue))
    requires
        plain_pair(name@, value@),
    ensures
        encrypted.0@ == rewritten_name(name@, keys@),
        encrypted.1@ == rewritten_value(name@, value@, keys@),
{
    (encrypt_tag_name(name, keys), encrypt_target_value(name, &value, keys))
}

/// Encrypts the values of an `In`, each by itself, in the same order.
fn encrypt_target_values(name: &TagName, values: &Vec<TargetValue>, keys: &Keys) -> (encrypted: Vec<TargetValue>)
    requires
        forall|i: int| 0 <= i < values@.len() ==> plain_pair(name@, (#[trigger] values@[i])@),
    ensures
        target_values_view(encrypted@) == rewritten_values(name@, target_values_view(values@), keys@),
{
    let mut encrypted_values: Vec<TargetValue> = Vec::new();
    let mut i: usize = 0;
    while i < values.len()
        invariant
            i <= values@.len(),
            encrypted_values@.len() == i,
            forall|j: int| 0 <= j < values@.len() ==> plain_pair(name@, (#[trigger] values@[j])@),
            forall|j: int|
                0 <= j < i ==> (#[trigger] encrypted_values@[j])@ == rewritten_value(name@, values@[j]@, keys@),
        decreases values@.len() - i,
    {
        assert(plain_pair(name@, values@[i as int]@));
        encrypted_values.push(encrypt_target_value(name, &values[i], keys));
        i += 1;
    }
    assert(target_values_view(encrypted_values@) =~= rewritten_values(
        name@,
        target_values_view(values@),
        keys@,
    ));
    encrypted_values
}

/// Rewrites a comparison.
fn rewrite_comparison(op: &Operator, keys: &Keys) -> (rewritten: Operator)
    requires
        leaf_name(op@) is Some,
        plain_query(op@),
    ensures
        rewritten@ == rewritten_operator(op@, keys@),
{
    match op {
        Operator::Eq(name, value) => Operator::Eq(
            encrypt_tag_name(name, keys),
            encrypt_target_value(name, value, keys),
        ),
        Operator::Neq(name, value) => Operator::Neq(
            encrypt_tag_name(name, keys),
            encrypt_target_value(name, value, keys),
        ),
        Operator::Gt(name, value) => Operator::Gt(
            encrypt_tag_name(name, keys),
            encrypt_target_value(name, value, keys),
        ),
        Operator::Gte(name, value) => Operator::Gte(
            encrypt_tag_name(name, keys),
            encrypt_target_value(name, value, keys),
        ),
        Operator::Lt(name, value) => Operator::Lt(
            encrypt_tag_name(name, keys),
            encrypt_target_value(name, value, keys),
        ),
        Operator::Lte(name, value) => Operator::Lte(
            encrypt_tag_name(name, keys),
            encrypt_target_value(name, value, keys),
        ),
        Operator::Like(name, value) => Operator::Like(
            encrypt_tag_name(name, keys),
            encrypt_target_value(name, value, keys),
        ),
        Operator::Regex(name, value) => Operator::Regex(
            encrypt_tag_name(name, keys),
            encrypt_target_value(name, value, keys),
        ),
        Operator::In(name, values) => {
            assert forall|i: int| 0 <= i < values@.len() implies plain_pair(name@, (#[trigger] values@[i])@) by {
                assert(target_values_view(values@)[i] == values@[i]@);
            }
            Operator::In(encrypt_tag_name(name, keys), encrypt_target_values(name, values, keys))
        },
        Operator::And(_) => unreached(),
        Operator::Or(_) => unreached(),
        Operator::Not(_) => unreached(),
    }
}

/// Rewrites the operands of an `And` or an `Or`, each by itself, in the same
/// order.
fn rewrite_all(operators: &Vec<Operator>, keys: &Keys) -> (rewritten: Vec<Operator>)
    requires
        forall|i: int| 0 <= i < operators@.len() ==> plain_query((#[trigger] operators@[i])@),
    ensures
        rewritten@.len() == operators@.len(),
        forall|i: int|
            0 <= i < operators@.len() ==> (#[trigger] rewritten@[i])@ == rewritten_query(operators@[i]@, keys@),
    decreases operators,
{
    let mut rewritten: Vec<Operator> = Vec::new();
    let mut i: usize = 0;
    while i < operators.len()
        invariant
            i <= operators@.len(),
            rewritten@.len() == i,
            forall|j: int| 0 <= j < operators@.len() ==> plain_query((#[trigger] operators@[j])@),
            forall|j: int|
                0 <= j < i ==> (#[trigger] rewritten@[j])@ == rewritten_query(operators@[j]@, keys@),
        decreases operators@.len() - i,
    {
        assert(plain_query(operators@[i as int]@));
        rewritten.push(rewrite(&operators[i], keys));
        i += 1;
    }
    rewritten
}

/// Rewrites a query.
fn rewrite(operator: &Operator, keys: &Keys) -> (rewritten: Operator)
    requires
        plain_query(operator@),
    ensures
        rewritten@ == rewritten_query(operator@, keys@),
    decreases operator,
{
    match operator {
        Operator::And(operators) => {
            assert forall|i: int| 0 <= i < operators@.len() implies plain_query((#[trigger] operators@[i])@) by {
                assert(operator@->And_0[i] == operators@[i]@);
            }
            let rewritten = rewrite_all(operators, keys);
            assert(query_of(Operator::And(rewritten))->And_0 =~= rewritten_query(operator@, keys@)->And_0);
            Operator::And(rewritten)
        },
        Operator::Or(operators) => {
            assert forall|i: int| 0 <= i < operators@.len() implies plain_query((#[trigger] operators@[i])@) by {
                assert(operator@->Or_0[i] == operators@[i]@);
            }
            let rewritten = rewrite_all(operators, keys);
            assert(query_of(Operator::Or(rewritten))->Or_0 =~= rewritten_query(operator@, keys@)->Or_0);
            Operator::Or(rewritten)
        },
        Operator::Not(inner) => Operator::Not(Box::new(rewrite(inner, keys))),
        _ => rewrite_comparison(operator, keys),
    }
}

/// Encrypts a single operator of a query. A comparison is rewritten; `And`,
/// `Or` and `Not` come back as they are, operands included.
pub fn encrypt_operator(op: Operator, keys: &Keys) -> (encrypted: Operator)
    requires
        plain_operator(op@),
    ensures
        encrypted@ == rewritten_operator(op@, keys@),
{
    match op {
        Operator::And(operators) => Operator::And(operators),
        Operator::Or(operators) => Operator::Or(operators),
        Operator::Not(operator) => Operator::Not(operator),
        comparison => rewrite_comparison(&comparison, keys),
    }
}

/// Encrypts a query: rewrites every comparison in the tree and keeps the
/// tree.
pub fn encrypt_query(operator: Operator, keys: &Keys) -> (encrypted: Operator)
    requires
        plain_query(operator@),
    ensures
        encrypted@ == rewritten_query(operator@, keys@),
        same_shape(operator@, encrypted@),
{
    proof {
        lemma_rewriting_keeps_shape(operator@, keys@);
    }
    rewrite(&operator, keys)
}

} // verus!
