use indy_wallet::crypto::encrypt_as_searchable;
use indy_wallet::language::{is_answerable, Operator, TagName, TargetValue};
use indy_wallet::query_encryption::{encrypt_name_value, encrypt_operator, encrypt_query, is_plain_query};
use indy_wallet::wallet::Keys;

fn text(s: &str) -> TargetValue {
    TargetValue::Unencrypted(s.to_string())
}

fn encrypted_name(s: &str) -> TagName {
    TagName::Encrypted(s.as_bytes().to_vec())
}

fn plain_name(s: &str) -> TagName {
    TagName::Plain(s.as_bytes().to_vec())
}

fn name_blob(s: &str, keys: &Keys) -> Vec<u8> {
    encrypt_as_searchable(s.as_bytes(), &keys.tag_name_key, &keys.tags_hmac_key)
}

fn value_blob(s: &str, keys: &Keys) -> Vec<u8> {
    encrypt_as_searchable(s.as_bytes(), &keys.tag_value_key, &keys.tags_hmac_key)
}

#[test]
fn comparison_on_an_encrypted_tag_encrypts_name_and_value() {
    let keys = Keys::generate();
    let query = Operator::Eq(encrypted_name("tag1"), text("v1"));
    assert_eq!(
        encrypt_query(query, &keys),
        Operator::Eq(
            TagName::Encrypted(name_blob("tag1", &keys)),
            TargetValue::Encrypted(value_blob("v1", &keys))
        )
    );
}

#[test]
fn comparison_on_a_plain_tag_keeps_the_value() {
    let keys = Keys::generate();
    let query = Operator::Gt(plain_name("~age"), text("18"));
    assert_eq!(
        encrypt_query(query, &keys),
        Operator::Gt(TagName::Plain(name_blob("~age", &keys)), text("18"))
    );
}

#[test]
fn every_comparison_keeps_its_operator() {
    let keys = Keys::generate();
    let n = || encrypted_name("n");
    let p = || plain_name("~p");
    let en = || TagName::Encrypted(name_blob("n", &keys));
    let ep = || TagName::Plain(name_blob("~p", &keys));
    let ev = || TargetValue::Encrypted(value_blob("v", &keys));
    assert_eq!(encrypt_operator(Operator::Eq(n(), text("v")), &keys), Operator::Eq(en(), ev()));
    assert_eq!(encrypt_operator(Operator::Neq(n(), text("v")), &keys), Operator::Neq(en(), ev()));
    assert_eq!(encrypt_operator(Operator::Gt(n(), text("v")), &keys), Operator::Gt(en(), ev()));
    assert_eq!(encrypt_operator(Operator::Gte(n(), text("v")), &keys), Operator::Gte(en(), ev()));
    assert_eq!(encrypt_operator(Operator::Lt(n(), text("v")), &keys), Operator::Lt(en(), ev()));
    assert_eq!(encrypt_operator(Operator::Lte(n(), text("v")), &keys), Operator::Lte(en(), ev()));
    assert_eq!(encrypt_operator(Operator::Like(n(), text("v")), &keys), Operator::Like(en(), ev()));
    assert_eq!(encrypt_operator(Operator::Regex(n(), text("v")), &keys), Operator::Regex(en(), ev()));
    assert_eq!(encrypt_operator(Operator::Eq(p(), text("v")), &keys), Operator::Eq(ep(), text("v")));
    assert_eq!(encrypt_operator(Operator::Neq(p(), text("v")), &keys), Operator::Neq(ep(), text("v")));
    assert_eq!(encrypt_operator(Operator::Gte(p(), text("v")), &keys), Operator::Gte(ep(), text("v")));
    assert_eq!(encrypt_operator(Operator::Lt(p(), text("v")), &keys), Operator::Lt(ep(), text("v")));
    assert_eq!(encrypt_operator(Operator::Lte(p(), text("v")), &keys), Operator::Lte(ep(), text("v")));
    assert_eq!(encrypt_operator(Operator::Like(p(), text("v")), &keys), Operator::Like(ep(), text("v")));
    assert_eq!(encrypt_operator(Operator::Regex(p(), text("v")), &keys), Operator::Regex(ep(), text("v")));
}

#[test]
fn values_of_in_are_rewritten_one_by_one_in_order() {
    let keys = Keys::generate();
    let query = Operator::In(encrypted_name("n"), vec![text("a"), text("b"), text("a")]);
    assert_eq!(
        encrypt_query(query, &keys),
        Operator::In(
            TagName::Encrypted(name_blob("n", &keys)),
            vec![
                TargetValue::Encrypted(value_blob("a", &keys)),
                TargetValue::Encrypted(value_blob("b", &keys)),
                TargetValue::Encrypted(value_blob("a", &keys)),
            ]
        )
    );
    let query = Operator::In(plain_name("~n"), vec![text("a"), text("b")]);
    assert_eq!(
        encrypt_operator(query, &keys),
        Operator::In(TagName::Plain(name_blob("~n", &keys)), vec![text("a"), text("b")])
    );
    let query = Operator::In(plain_name("~n"), vec![]);
    assert_eq!(encrypt_query(query, &keys), Operator::In(TagName::Plain(name_blob("~n", &keys)), vec![]));
}

#[test]
fn tree_keeps_its_shape() {
    let keys = Keys::generate();
    let query = Operator::And(vec![
        Operator::Or(vec![
            Operator::Eq(encrypted_name("a"), text("1")),
            Operator::Not(Box::new(Operator::Like(plain_name("~b"), text("2%")))),
        ]),
        Operator::Not(Box::new(Operator::And(vec![]))),
        Operator::In(encrypted_name("c"), vec![text("3")]),
        Operator::Or(vec![]),
    ]);
    let expected = Operator::And(vec![
        Operator::Or(vec![
            Operator::Eq(
                TagName::Encrypted(name_blob("a", &keys)),
                TargetValue::Encrypted(value_blob("1", &keys)),
            ),
            Operator::Not(Box::new(Operator::Like(TagName::Plain(name_blob("~b", &keys)), text("2%")))),
        ]),
        Operator::Not(Box::new(Operator::And(vec![]))),
        Operator::In(
            TagName::Encrypted(name_blob("c", &keys)),
            vec![TargetValue::Encrypted(value_blob("3", &keys))],
        ),
        Operator::Or(vec![]),
    ]);
    assert_eq!(encrypt_query(query, &keys), expected);
}

#[test]
fn single_operator_leaves_and_or_not_as_they_are() {
    let keys = Keys::generate();
    let inner = || Operator::Eq(encrypted_name("a"), text("1"));
    assert_eq!(encrypt_operator(Operator::And(vec![inner()]), &keys), Operator::And(vec![inner()]));
    assert_eq!(encrypt_operator(Operator::Or(vec![inner()]), &keys), Operator::Or(vec![inner()]));
    assert_eq!(
        encrypt_operator(Operator::Not(Box::new(inner())), &keys),
        Operator::Not(Box::new(inner()))
    );
}

#[test]
fn name_and_value_are_encrypted_as_a_pair() {
    let keys = Keys::generate();
    assert_eq!(
        encrypt_name_value(&encrypted_name("n"), text("v"), &keys),
        (TagName::Encrypted(name_blob("n", &keys)), TargetValue::Encrypted(value_blob("v", &keys)))
    );
    assert_eq!(
        encrypt_name_value(&plain_name("~n"), text("v"), &keys),
        (TagName::Plain(name_blob("~n", &keys)), text("v"))
    );
}

#[test]
fn query_with_an_encrypted_value_cannot_be_rewritten() {
    assert!(is_plain_query(&Operator::Eq(encrypted_name("a"), text("1"))));
    assert!(is_plain_query(&Operator::And(vec![])));
    assert!(is_plain_query(&Operator::In(plain_name("~a"), vec![])));
    assert!(!is_plain_query(&Operator::Eq(encrypted_name("a"), TargetValue::Encrypted(vec![1]))));
    assert!(!is_plain_query(&Operator::In(
        plain_name("~a"),
        vec![text("1"), TargetValue::Encrypted(vec![1])]
    )));
    assert!(!is_plain_query(&Operator::And(vec![
        Operator::Eq(encrypted_name("a"), text("1")),
        Operator::Not(Box::new(Operator::Or(vec![Operator::Lt(
            plain_name("~a"),
            TargetValue::Encrypted(vec![])
        )]))),
    ])));
    assert!(is_plain_query(&Operator::Or(vec![
        Operator::Eq(encrypted_name("a"), text("1")),
        Operator::Not(Box::new(Operator::Regex(plain_name("~a"), text("^x")))),
    ])));
}

#[test]
fn order_and_pattern_comparisons_need_a_plain_tag() {
    assert!(is_answerable(&Operator::Eq(encrypted_name("a"), text("1"))));
    assert!(is_answerable(&Operator::Neq(encrypted_name("a"), text("1"))));
    assert!(is_answerable(&Operator::In(encrypted_name("a"), vec![text("1")])));
    assert!(is_answerable(&Operator::Gt(plain_name("~a"), text("1"))));
    assert!(is_answerable(&Operator::Regex(plain_name("~a"), text("1"))));
    assert!(!is_answerable(&Operator::Gt(encrypted_name("a"), text("1"))));
    assert!(!is_answerable(&Operator::Gte(encrypted_name("a"), text("1"))));
    assert!(!is_answerable(&Operator::Lt(encrypted_name("a"), text("1"))));
    assert!(!is_answerable(&Operator::Lte(encrypted_name("a"), text("1"))));
    assert!(!is_answerable(&Operator::Like(encrypted_name("a"), text("1"))));
    assert!(!is_answerable(&Operator::Regex(encrypted_name("a"), text("1"))));
    assert!(is_answerable(&Operator::And(vec![])));
    assert!(!is_answerable(&Operator::Or(vec![
        Operator::Eq(encrypted_name("a"), text("1")),
        Operator::Not(Box::new(Operator::And(vec![Operator::Like(encrypted_name("a"), text("1%"))]))),
    ])));
    assert!(is_answerable(&Operator::Or(vec![
        Operator::Eq(encrypted_name("a"), text("1")),
        Operator::Not(Box::new(Operator::And(vec![Operator::Like(plain_name("~a"), text("1%"))]))),
    ])));
    assert!(plain_name("~a").is_plain());
    assert!(!encrypted_name("a").is_plain());
}
