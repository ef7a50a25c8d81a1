//! The query language of the wallet: a tree of comparisons on tags, joined by
//! `And`, `Or` and `Not`.

use vstd::prelude::*;

verus! {

/// The name of a tag in a query. The variant says how the tag's value is
/// stored: encrypted, or plain for a tag whose name begins with `~`.
#[derive(Debug, Clone, PartialEq, Eq)]
pub enum TagName {
    Encrypted(Vec<u8>),
    Plain(Vec<u8>),
}

/// The value that a query compares a tag with: text as the caller wrote it,
/// or the searchable blob of that text.
#[derive(Debug, Clone, PartialEq, Eq)]
pub enum TargetValue {
    Unencrypted(String),
    Encrypted(Vec<u8>),
}

/// A query.
#[derive(Debug, PartialEq, Eq)]
pub enum Operator {
    And(Vec<Operator>),
    Or(Vec<Operator>),
    Not(Box<Operator>),
    Eq(TagName, TargetValue),
    Neq(TagName, TargetValue),
    Gt(TagName, TargetValue),
    Gte(TagName, TargetValue),
    Lt(TagName, TargetValue),
    Lte(TagName, TargetValue),
    Like(TagName, TargetValue),
    Regex(TagName, TargetValue),
    In(TagName, Vec<TargetValue>),
}

/// A tag name, with its bytes as a sequence.
pub enum TagNameView {
    Encrypted(Seq<u8>),
    Plain(Seq<u8>),
}

/// A target value, with its characters or bytes as a sequence.
pub enum TargetValueView {
    Unencrypted(Seq<char>),
    Encrypted(Seq<u8>),
}

/// A query, with its parts as sequences.
pub enum Query {
    And(Seq<Query>),
    Or(Seq<Query>),
    Not(Box<Query>),
    Eq(TagNameView, TargetValueView),
    Neq(TagNameView, TargetValueView),
    Gt(TagNameView, TargetValueView),
    Gte(TagNameView, TargetValueView),
    Lt(TagNameView, TargetValueView),
    Lte(TagNameView, TargetValueView),
    Like(TagNameView, TargetValueView),
    Regex(TagNameView, TargetValueView),
    In(TagNameView, Seq<TargetValueView>),
}

impl View for TagName {
    type V = TagNameView;

    open spec fn view(&self) -> TagNameView {
        match self {
            TagName::Encrypted(name) => TagNameView::Encrypted(name@),
            TagName::Plain(name) => TagNameView::Plain(name@),
        }
    }
}

impl View for TargetValue {
    type V = TargetValueView;

    open spec fn view(&self) -> TargetValueView {
        match self {
            TargetValue::Unencrypted(text) => TargetValueView::Unencrypted(text@),
            TargetValue::Encrypted(blob) => TargetValueView::Encrypted(blob@),
        }
    }
}

/// The views of a sequence of target values.
pub open spec fn target_values_view(values: Seq<TargetValue>) -> Seq<TargetValueView> {
    Seq::new(values.len(), |i: int| values[i]@)
}

/// The view of a query.
pub open spec fn query_of(operator: Operator) -> Query
    decreases operator,
{
    match operator {
        Operator::And(operators) => Query::And(
            Seq::new(
                operators@.len(),
                |i: int|
                    if 0 <= i < operators@.len() {
                        query_of(operators@[i])
                    } else {
                        arbitrary()
                    },
            ),
        ),
        Operator::Or(operators) => Query::Or(
            Seq::new(
                operators@.len(),
                |i: int|
                    if 0 <= i < operators@.len() {
                        query_of(operators@[i])
                    } else {
                        arbitrary()
                    },
            ),
        ),
        Operator::Not(operator) => Query::Not(Box::new(query_of(*operator))),
        Operator::Eq(name, value) => Query::Eq(name@, value@),
        Operator::Neq(name, value) => Query::Neq(name@, value@),
        Operator::Gt(name, value) => Query::Gt(name@, value@),
        Operator::Gte(name, value) => Query::Gte(name@, value@),
        Operator::Lt(name, value) => Query::Lt(name@, value@),
        Operator::Lte(name, value) => Query::Lte(name@, value@),
        Operator::Like(name, value) => Query::Like(name@, value@),
        Operator::Regex(name, value) => Query::Regex(name@, value@),
        Operator::In(name, values) => Query::In(name@, target_values_view(values@)),
    }
}

impl View for Operator {
    type V = Query;

    open spec fn view(&self) -> Query {
        query_of(*self)
    }
}

/// Whether a backend can answer a query. A backend compares the stored
/// value of an encrypted tag byte by byte, so on an encrypted tag it can
/// answer `Eq`, `Neq` and `In` only; the order and pattern comparisons need a
/// plain tag.
pub open spec fn answerable(query: Query) -> bool
    decreases query,
{
    match query {
        Query::And(queries) => forall|i: int| 0 <= i < queries.len() ==> answerable(#[trigger] queries[i]),
        Query::Or(queries) => forall|i: int| 0 <= i < queries.len() ==> answerable(#[trigger] queries[i]),
        Query::Not(query) => answerable(*query),
        Query::Gt(name, _) => name is Plain,
        Query::Gte(name, _) => name is Plain,
        Query::Lt(name, _) => name is Plain,
        Query::Lte(name, _) => name is Plain,
        Query::Like(name, _) => name is Plain,
        Query::Regex(name, _) => name is Plain,
        _ => true,
    }
}

impl TagName {
    /// Whether this is the name of a plain tag.
    pub fn is_plain(&self) -> (plain: bool)
        ensures
            plain == (self@ is Plain),
    {
        match self {
            TagName::Plain(_) => true,
            TagName::Encrypted(_) => false,
        }
    }
}

/// Whether a backend can answer every one of these queries.
fn are_answerable(operators: &Vec<Operator>) -> (all: bool)
    ensures
        all == forall|i: int| 0 <= i < operators@.len() ==> answerable((#[trigger] operators@[i])@),
    decreases operators,
{
    let mut i: usize = 0;
    while i < operators.len()
        invariant
            i <= operators@.len(),
            forall|j: int| 0 <= j < i ==> answerable((#[trigger] operators@[j])@),
        decreases operators@.len() - i,
    {
        if !is_answerable(&operators[i]) {
            return false;
        }
        i += 1;
    }
    true
}

/// Whether a backend can answer a query: whether every order and pattern
/// comparison in it is on a plain tag.
pub fn is_answerable(operator: &Operator) -> (can: bool)
    ensures
        can == answerable(operator@),
    decreases operator,
{
    match operator {
        Operator::And(operators) => {
            let all = are_answerable(operators);
            proof {
                let queries = operator@->And_0;
                assert(queries.len() == operators@.len());
                if all {
                    assert forall|i: int| 0 <= i < queries.len() implies answerable(#[trigger] queries[i]) by {
                        assert(answerable(operators@[i]@));
                    }
                } else {
                    let i = choose|i: int| 0 <= i < operators@.len() && !answerable((#[trigger] operators@[i])@);
                    assert(queries[i] == operators@[i]@);
                }
            }
            all
        },
        Operator::Or(operators) => {
            let all = are_answerable(operators);
            proof {
                let queries = operator@->Or_0;
                assert(queries.len() == operators@.len());
                if all {
                    assert forall|i: int| 0 <= i < queries.len() implies answerable(#[trigger] queries[i]) by {
                        assert(answerable(operators@[i]@));
                    }
                } else {
                    let i = choose|i: int| 0 <= i < operators@.len() && !answerable((#[trigger] operators@[i])@);
                    assert(queries[i] == operators@[i]@);
                }
            }
            all
        },
        Operator::Not(inner) => is_answerable(inner),
        Operator::Gt(name, _) => name.is_plain(),
        Operator::Gte(name, _) => name.is_plain(),
        Operator::Lt(name, _) => name.is_plain(),
        Operator::Lte(name, _) => name.is_plain(),
        Operator::Like(name, _) => name.is_plain(),
        Operator::Regex(name, _) => name.is_plain(),
        Operator::Eq(_, _) => true,
        Operator::Neq(_, _) => true,
        Operator::In(_, _) => true,
    }
}

} // verus!
