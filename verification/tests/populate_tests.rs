use mongrel::document::{Bson, ObjectId};
use mongrel::error::MongooseError;
use mongrel::populate::{complete_ref, Ref};
use mongrel::virtual_fields::{merge_virtuals, WithVirtuals};

fn s(x: &str) -> String {
    x.to_string()
}

#[test]
fn unloaded_reference_knows_its_id() {
    let id = ObjectId { bytes: [9; 12] };
    let r: Ref<String> = Ref::Id(id);
    assert_eq!(r.id(), Some(&id));
    assert!(r.populated().is_none());
    assert!(!r.is_populated());
    assert_eq!(r.lookup_filter().unwrap().into_entries(), vec![(s("_id"), Bson::ObjectId(id))]);
}

#[test]
fn resolving_loads_the_document() {
    let r: Ref<String> = Ref::Id(ObjectId { bytes: [1; 12] });
    let loaded = complete_ref(r, Some(s("Alice"))).unwrap();
    assert!(loaded.is_populated());
    assert_eq!(loaded.populated(), Some(&s("Alice")));
    assert!(loaded.id().is_none());
    assert!(loaded.lookup_filter().is_none());
}

#[test]
fn resolving_a_missing_document_fails() {
    let r: Ref<String> = Ref::Id(ObjectId { bytes: [1; 12] });
    assert!(matches!(complete_ref(r, None), Err(MongooseError::NotFound)));
}

#[test]
fn resolving_a_loaded_reference_changes_nothing() {
    let r: Ref<String> = Ref::Populated(Box::new(s("Bob")));
    let again = complete_ref(r, Some(s("Other"))).unwrap();
    assert_eq!(again.populated(), Some(&s("Bob")));
}

#[test]
fn virtuals_replace_fields_of_the_same_name() {
    let w = WithVirtuals::new(0u8)
        .add(s("full_name"), 1)
        .add(s("age"), 2)
        .add(s("full_name"), 3);
    let (inner, virtuals) = w.into_parts();
    assert_eq!(inner, 0);
    assert_eq!(virtuals, vec![(s("full_name"), 3), (s("age"), 2)]);
    let merged = merge_virtuals(vec![(s("name"), 10), (s("age"), 20)], virtuals);
    assert_eq!(merged, vec![(s("name"), 10), (s("age"), 2), (s("full_name"), 3)]);
}
