use mongrel::document::{Bson, Document};
use mongrel::query::{QueryBuilder, SortDir};

fn s(x: &str) -> String {
    x.to_string()
}

fn op(name: &str, v: Bson) -> Bson {
    Bson::Document(Document::single(s(name), v))
}

fn entries(d: Document) -> Vec<(String, Bson)> {
    d.into_entries()
}

#[test]
fn where_field_then_gte_builds_operator_condition() {
    let (_, plan) = QueryBuilder::new(()).where_field(s("age")).gte(Bson::Int32(18)).into_plan();
    assert_eq!(entries(plan.filter), vec![(s("age"), op("$gte", Bson::Int32(18)))]);
}

#[test]
fn eq_sets_the_value_directly() {
    let (_, plan) = QueryBuilder::new(()).where_field(s("role")).eq(Bson::String(s("admin"))).into_plan();
    assert_eq!(entries(plan.filter), vec![(s("role"), Bson::String(s("admin")))]);
}

#[test]
fn every_comparison_operator_uses_its_name() {
    let (_, plan) = QueryBuilder::new(())
        .where_field(s("a")).ne(Bson::Int32(0))
        .where_field(s("b")).gt(Bson::Int32(17))
        .where_field(s("c")).lt(Bson::Int32(65))
        .where_field(s("d")).lte(Bson::Int32(64))
        .into_plan();
    assert_eq!(
        entries(plan.filter),
        vec![
            (s("a"), op("$ne", Bson::Int32(0))),
            (s("b"), op("$gt", Bson::Int32(17))),
            (s("c"), op("$lt", Bson::Int32(65))),
            (s("d"), op("$lte", Bson::Int32(64))),
        ]
    );
}

#[test]
fn operator_without_field_changes_nothing() {
    let (_, plan) = QueryBuilder::new(()).gte(Bson::Int32(1)).eq(Bson::Null).into_plan();
    assert_eq!(plan.filter.len(), 0);
}

#[test]
fn operator_consumes_the_pending_field() {
    let (_, plan) = QueryBuilder::new(())
        .where_field(s("x")).eq(Bson::Int32(1))
        .gt(Bson::Int32(5))
        .into_plan();
    assert_eq!(entries(plan.filter), vec![(s("x"), Bson::Int32(1))]);
}

#[test]
fn conditions_on_the_same_field_are_all_kept() {
    let (_, plan) = QueryBuilder::new(())
        .where_field(s("age")).gte(Bson::Int32(18))
        .where_field(s("age")).lte(Bson::Int32(65))
        .where_field(s("role")).eq(Bson::String(s("user")))
        .where_field(s("age")).ne(Bson::Int32(30))
        .into_plan();
    let and_list = Bson::Array(vec![
        Bson::Document(Document::single(s("age"), op("$lte", Bson::Int32(65)))),
        Bson::Document(Document::single(s("age"), op("$ne", Bson::Int32(30)))),
    ]);
    assert_eq!(
        entries(plan.filter),
        vec![
            (s("age"), op("$gte", Bson::Int32(18))),
            (s("$and"), and_list),
            (s("role"), Bson::String(s("user"))),
        ]
    );
}

#[test]
fn a_lone_and_value_becomes_the_first_clause() {
    let raw = Document::single(s("x"), Bson::Int32(1));
    let mut filter = Document::single(s("$and"), Bson::Document(raw));
    filter.insert(s("x"), Bson::Int32(2));
    let (_, plan) = QueryBuilder::new(()).filter(filter).where_field(s("x")).eq(Bson::Int32(3)).into_plan();
    assert_eq!(
        entries(plan.filter),
        vec![
            (
                s("$and"),
                Bson::Array(vec![
                    Bson::Document(Document::single(s("x"), Bson::Int32(1))),
                    Bson::Document(Document::single(s("x"), Bson::Int32(3))),
                ])
            ),
            (s("x"), Bson::Int32(2)),
        ]
    );
}

#[test]
fn in_list_and_nin_hold_arrays() {
    let (_, plan) = QueryBuilder::new(())
        .where_field(s("role")).in_list(vec![Bson::String(s("admin")), Bson::String(s("moderator"))])
        .where_field(s("status")).nin(vec![Bson::String(s("banned"))])
        .into_plan();
    assert_eq!(
        entries(plan.filter),
        vec![
            (s("role"), op("$in", Bson::Array(vec![Bson::String(s("admin")), Bson::String(s("moderator"))]))),
            (s("status"), op("$nin", Bson::Array(vec![Bson::String(s("banned"))]))),
        ]
    );
}

#[test]
fn regex_carries_pattern_and_options() {
    let (_, plan) = QueryBuilder::new(()).where_field(s("name")).regex(s("^alice"), s("i")).into_plan();
    let mut cond = Document::single(s("$regex"), Bson::String(s("^alice")));
    cond.insert(s("$options"), Bson::String(s("i")));
    assert_eq!(entries(plan.filter), vec![(s("name"), Bson::Document(cond))]);
}

#[test]
fn field_exists_uses_exists() {
    let (_, plan) = QueryBuilder::new(()).where_field(s("phone")).field_exists(false).into_plan();
    assert_eq!(entries(plan.filter), vec![(s("phone"), op("$exists", Bson::Boolean(false)))]);
}

#[test]
fn sort_keys_accumulate_in_order() {
    let (_, plan) = QueryBuilder::new(())
        .sort(s("created_at"), SortDir::Desc)
        .sort(s("name"), SortDir::Asc)
        .into_plan();
    assert_eq!(
        entries(plan.sort.unwrap()),
        vec![(s("created_at"), Bson::Int32(-1)), (s("name"), Bson::Int32(1))]
    );
    assert_eq!(SortDir::Asc.order(), 1);
    assert_eq!(SortDir::Desc.order(), -1);
}

#[test]
fn limit_skip_and_select() {
    let (handle, plan) = QueryBuilder::new(7u8)
        .skip(20)
        .limit(10)
        .select(vec![s("name"), s("email"), s("name")])
        .into_plan();
    assert_eq!(handle, 7u8);
    assert_eq!(plan.skip, Some(20));
    assert_eq!(plan.limit, Some(10));
    assert_eq!(
        entries(plan.projection.unwrap()),
        vec![(s("name"), Bson::Int32(1)), (s("email"), Bson::Int32(1))]
    );
}

#[test]
fn raw_filter_replaces_built_conditions() {
    let raw = Document::single(s("role"), Bson::String(s("admin")));
    let (_, plan) = QueryBuilder::new(())
        .where_field(s("age")).gte(Bson::Int32(18))
        .filter(raw)
        .into_plan();
    assert_eq!(entries(plan.filter), vec![(s("role"), Bson::String(s("admin")))]);
}

#[test]
fn query_builder_scenario_adults_sorted_by_name() {
    let (_, plan) = QueryBuilder::new(())
        .where_field(s("age")).gte(Bson::Int32(18))
        .sort(s("name"), SortDir::Asc)
        .into_plan();
    assert_eq!(entries(plan.filter), vec![(s("age"), op("$gte", Bson::Int32(18)))]);
    assert_eq!(entries(plan.sort.unwrap()), vec![(s("name"), Bson::Int32(1))]);
    assert_eq!(plan.limit, None);
    assert_eq!(plan.skip, None);
    assert!(plan.projection.is_none());
}
