use mongrel::document::{Bson, Document};
use mongrel::index::{unique_field_indexes, IndexBuilder};

fn s(x: &str) -> String {
    x.to_string()
}

#[test]
fn compound_named_index() {
    let def = IndexBuilder::new().field(s("name")).field_desc(s("age")).name(s("name_age_idx")).build();
    assert_eq!(
        def.keys.into_entries(),
        vec![(s("name"), Bson::Int32(1)), (s("age"), Bson::Int32(-1))]
    );
    assert_eq!(def.name, Some(s("name_age_idx")));
    assert!(!def.unique);
    assert!(!def.sparse);
    assert_eq!(def.ttl_seconds, None);
    assert!(def.partial_filter.is_none());
}

#[test]
fn text_ttl_sparse_unique_partial() {
    let def = IndexBuilder::default()
        .text(s("title"))
        .text(s("body"))
        .sparse()
        .unique()
        .ttl(3600)
        .partial_filter(Document::single(s("active"), Bson::Boolean(true)))
        .build();
    assert!(def.unique && def.sparse);
    assert_eq!(def.ttl_seconds, Some(3600));
    let (keys, opts) = def.into_model();
    assert_eq!(
        keys.into_entries(),
        vec![(s("title"), Bson::String(s("text"))), (s("body"), Bson::String(s("text")))]
    );
    assert_eq!(opts.unique, Some(true));
    assert_eq!(opts.sparse, Some(true));
    assert_eq!(opts.expire_after_secs, Some(3600));
    assert_eq!(opts.name, None);
    assert_eq!(
        opts.partial_filter_expression.unwrap().into_entries(),
        vec![(s("active"), Bson::Boolean(true))]
    );
}

#[test]
fn options_left_off_are_not_set() {
    let (keys, opts) = IndexBuilder::new().field(s("phone")).build().into_model();
    assert_eq!(keys.into_entries(), vec![(s("phone"), Bson::Int32(1))]);
    assert_eq!(opts.unique, None);
    assert_eq!(opts.sparse, None);
    assert_eq!(opts.expire_after_secs, None);
    assert!(opts.partial_filter_expression.is_none());
}

#[test]
fn repeated_key_keeps_its_place() {
    let def = IndexBuilder::new().field(s("a")).field(s("b")).field_desc(s("a")).build();
    assert_eq!(
        def.keys.into_entries(),
        vec![(s("a"), Bson::Int32(-1)), (s("b"), Bson::Int32(1))]
    );
}

#[test]
fn one_unique_index_per_unique_field() {
    let defs = unique_field_indexes(&["email", "username"]);
    assert_eq!(defs.len(), 2);
    for (def, name) in defs.into_iter().zip(["email", "username"]) {
        assert!(def.unique);
        assert!(!def.sparse);
        assert_eq!(def.name, None);
        assert_eq!(def.keys.into_entries(), vec![(s(name), Bson::Int32(1))]);
    }
}
