use mongrel::document::{Bson, Document, ObjectId};

fn s(x: &str) -> String {
    x.to_string()
}

#[test]
fn insert_appends_new_keys_in_order() {
    let mut d = Document::new();
    assert!(d.insert(s("a"), Bson::Int32(1)).is_none());
    assert!(d.insert(s("b"), Bson::Boolean(true)).is_none());
    let keys: Vec<String> = d.entries().iter().map(|e| e.0.clone()).collect();
    assert_eq!(keys, vec![s("a"), s("b")]);
    assert_eq!(d.len(), 2);
}

#[test]
fn insert_existing_key_replaces_in_place() {
    let mut d = Document::new();
    d.insert(s("a"), Bson::Int32(1));
    d.insert(s("b"), Bson::Int32(2));
    let previous = d.insert(s("a"), Bson::String(s("x")));
    assert_eq!(previous, Some(Bson::Int32(1)));
    let entries = d.into_entries();
    assert_eq!(entries, vec![(s("a"), Bson::String(s("x"))), (s("b"), Bson::Int32(2))]);
}

#[test]
fn get_reads_back_what_was_written() {
    let mut d = Document::new();
    d.insert(s("k"), Bson::Int64(7));
    d.insert(s("other"), Bson::Null);
    assert_eq!(d.get(&s("k")), Some(&Bson::Int64(7)));
    assert_eq!(d.get(&s("missing")), None);
    assert!(d.contains_key(&s("other")));
    assert!(!d.contains_key(&s("nope")));
}

#[test]
fn single_and_push_new_build_documents() {
    let mut d = Document::single(s("_id"), Bson::ObjectId(ObjectId { bytes: [1; 12] }));
    d.push_new(s("n"), Bson::DateTime(5));
    assert_eq!(
        d.into_entries(),
        vec![
            (s("_id"), Bson::ObjectId(ObjectId { bytes: [1; 12] })),
            (s("n"), Bson::DateTime(5)),
        ]
    );
}

#[test]
fn documents_hold_every_bson_kind() {
    let mut d = Document::new();
    d.insert(s("re"), Bson::RegularExpression { pattern: s("^a"), options: s("i") });
    d.insert(s("ts"), Bson::Timestamp { time: 5, increment: 1 });
    d.insert(
        s("code"),
        Bson::JavaScriptCodeWithScope { code: s("x"), scope: Document::single(s("x"), Bson::Int32(1)) },
    );
    d.insert(s("ptr"), Bson::DbPointer { namespace: s("db.c"), id: ObjectId { bytes: [1; 12] } });
    d.insert(s("ts"), Bson::MinKey);
    assert_eq!(d.len(), 4);
    assert_eq!(d.get(&s("ts")), Some(&Bson::MinKey));
    assert_eq!(d.get(&s("re")), Some(&Bson::RegularExpression { pattern: s("^a"), options: s("i") }));
    let keys: Vec<String> = d.into_entries().into_iter().map(|(k, _)| k).collect();
    assert_eq!(keys, vec![s("re"), s("ts"), s("code"), s("ptr")]);
}
