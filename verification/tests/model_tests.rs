use mongrel::connection::Mongrel;
use mongrel::document::{Bson, Document, ObjectId};
use mongrel::error::MongooseError;
use mongrel::model::{creation_stamps, document_to_insert, id_filter, parse_oid, require_found, require_inserted_id, stamp_updated};

fn s(x: &str) -> String {
    x.to_string()
}

#[test]
fn parse_oid_accepts_24_hex_digits() {
    let oid = parse_oid("64b1f9a0C3d2e1f0a9b8c7d6").unwrap();
    assert_eq!(
        oid.bytes,
        [0x64, 0xb1, 0xf9, 0xa0, 0xc3, 0xd2, 0xe1, 0xf0, 0xa9, 0xb8, 0xc7, 0xd6]
    );
}

#[test]
fn parse_oid_rejects_other_text() {
    for bad in ["", "64b1f9a0c3d2e1f0a9b8c7d", "64b1f9a0c3d2e1f0a9b8c7dz", "64b1f9a0c3d2e1f0a9b8c7d6ff"] {
        match parse_oid(bad) {
            Err(MongooseError::InvalidId(m)) => assert!(!m.is_empty()),
            other => panic!("expected InvalidId for {bad:?}, got {other:?}"),
        }
    }
}

#[test]
fn id_filter_matches_the_id() {
    let id = ObjectId { bytes: [7; 12] };
    assert_eq!(id_filter(id).into_entries(), vec![(s("_id"), Bson::ObjectId(id))]);
}

#[test]
fn creation_sets_both_timestamps() {
    assert_eq!(
        creation_stamps(1700).into_entries(),
        vec![(s("created_at"), Bson::DateTime(1700)), (s("updated_at"), Bson::DateTime(1700))]
    );
}

#[test]
fn update_gets_updated_at_inside_set() {
    let mut set = Document::single(s("name"), Bson::String(s("Eve Updated")));
    set.insert(s("updated_at"), Bson::DateTime(1));
    let update = Document::single(s("$set"), Bson::Document(set));
    let stamped = stamp_updated(update, 99);
    let mut expected = Document::single(s("name"), Bson::String(s("Eve Updated")));
    expected.insert(s("updated_at"), Bson::DateTime(99));
    assert_eq!(stamped.into_entries(), vec![(s("$set"), Bson::Document(expected))]);
}

#[test]
fn update_without_set_gets_one() {
    let inc = Document::single(s("login_count"), Bson::Int32(1));
    let update = Document::single(s("$inc"), Bson::Document(inc));
    let stamped = stamp_updated(update, 5);
    assert_eq!(
        stamped.into_entries(),
        vec![
            (s("$inc"), Bson::Document(Document::single(s("login_count"), Bson::Int32(1)))),
            (s("$set"), Bson::Document(Document::single(s("updated_at"), Bson::DateTime(5)))),
        ]
    );
}

#[test]
fn update_with_odd_set_is_left_alone() {
    let update = Document::single(s("$set"), Bson::Int32(3));
    assert_eq!(stamp_updated(update, 5).into_entries(), vec![(s("$set"), Bson::Int32(3))]);
}

#[test]
fn missing_results_are_errors() {
    assert!(matches!(require_found::<u8>(None), Err(MongooseError::NotFound)));
    assert_eq!(require_found(Some(4u8)).unwrap(), 4);
    match require_inserted_id(None) {
        Err(MongooseError::Serialization(m)) => assert_eq!(m, "No ObjectId returned"),
        other => panic!("unexpected {other:?}"),
    }
    let id = ObjectId { bytes: [2; 12] };
    assert_eq!(require_inserted_id(Some(id)).unwrap(), id);
}

#[test]
fn connection_slot_decisions() {
    assert!(Mongrel::check_stored::<u8>(Ok(())).is_ok());
    match Mongrel::check_stored(Err(1u8)) {
        Err(MongooseError::Validation(m)) => assert_eq!(m, "Already connected"),
        other => panic!("unexpected {other:?}"),
    }
    assert_eq!(Mongrel::require_connected(Some(3u8)).unwrap(), 3);
    match Mongrel::require_connected::<u8>(None) {
        Err(MongooseError::Validation(m)) => {
            assert_eq!(m, "Not connected. Call Mongoose::connect() first.")
        }
        other => panic!("unexpected {other:?}"),
    }
}

#[test]
fn created_document_gets_stamps_when_timestamps_are_on() {
    let mut doc = Document::new();
    doc.insert(s("name"), Bson::String(s("Ada")));
    doc.insert(s("created_at"), Bson::Int32(1));
    doc.insert(s("tags"), Bson::Binary { subtype: 0, bytes: vec![1, 2] });
    let d = document_to_insert(doc, true, 99);
    let keys: Vec<&String> = d.entries().iter().map(|(k, _)| k).collect();
    assert_eq!(keys, vec!["name", "created_at", "tags", "updated_at"]);
    assert_eq!(d.get(&s("created_at")), Some(&Bson::DateTime(99)));
    assert_eq!(d.get(&s("updated_at")), Some(&Bson::DateTime(99)));
    assert_eq!(d.get(&s("name")), Some(&Bson::String(s("Ada"))));
    assert_eq!(d.get(&s("tags")), Some(&Bson::Binary { subtype: 0, bytes: vec![1, 2] }));
}

#[test]
fn created_document_is_unchanged_without_timestamps() {
    let doc = Document::single(s("n"), Bson::Decimal128([7; 16]));
    let d = document_to_insert(doc, false, 99);
    assert_eq!(d.len(), 1);
    assert_eq!(d.get(&s("n")), Some(&Bson::Decimal128([7; 16])));
    assert_eq!(d.get(&s("created_at")), None);
}
