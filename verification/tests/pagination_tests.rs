use mongrel::document::{Bson, Document};
use mongrel::pagination::{PaginateBuilder, PaginatedResult};

fn s(x: &str) -> String {
    x.to_string()
}

#[test]
fn pagination_scenario_second_page_of_three() {
    let (_, plan) = PaginateBuilder::new((), 2, 3)
        .sort(Document::single(s("name"), Bson::Int32(1)))
        .into_plan();
    assert_eq!(plan.skip, 3);
    assert_eq!(plan.limit, 3);
    let page = PaginatedResult::new(vec![1, 2, 3], 10, plan.page, plan.per_page);
    assert_eq!(page.total, 10);
    assert_eq!(page.total_pages, 4);
    assert_eq!(page.docs.len(), 3);
    assert!(page.has_prev);
    assert!(page.has_next);
}

#[test]
fn page_and_per_page_zero_count_as_one() {
    let (_, plan) = PaginateBuilder::new((), 0, 0).into_plan();
    assert_eq!(plan.page, 1);
    assert_eq!(plan.per_page, 1);
    assert_eq!(plan.skip, 0);
    assert_eq!(plan.limit, 1);
}

#[test]
fn total_pages_rounds_up() {
    let r: PaginatedResult<u8> = PaginatedResult::new(vec![], 21, 3, 10);
    assert_eq!(r.total_pages, 3);
    assert!(!r.has_next);
    assert!(r.has_prev);
    let r: PaginatedResult<u8> = PaginatedResult::new(vec![], 20, 1, 10);
    assert_eq!(r.total_pages, 2);
    assert!(r.has_next);
    assert!(!r.has_prev);
    let r: PaginatedResult<u8> = PaginatedResult::new(vec![], 0, 1, 10);
    assert_eq!(r.total_pages, 0);
    assert!(!r.has_next);
}

#[test]
fn page_count_at_the_top_of_the_range() {
    let r: PaginatedResult<u8> = PaginatedResult::new(vec![], u64::MAX, 1, 2);
    assert_eq!(r.total_pages, 1u64 << 63);
    assert!(r.has_next);
    let r: PaginatedResult<u8> = PaginatedResult::new(vec![], u64::MAX, 1, 1);
    assert_eq!(r.total_pages, u64::MAX);
    assert!(r.has_next);
    let r: PaginatedResult<u8> = PaginatedResult::new(vec![7], 1, 1, u64::MAX);
    assert_eq!(r.total_pages, 1);
    assert!(!r.has_next);
    assert!(!r.has_prev);
    let r: PaginatedResult<u8> = PaginatedResult::new(vec![], u64::MAX, 2, u64::MAX);
    assert_eq!(r.total_pages, 1);
    assert!(!r.has_next);
    assert!(r.has_prev);
}

#[test]
fn zero_page_size_gives_no_pages() {
    let r: PaginatedResult<u8> = PaginatedResult::new(vec![], 5, 1, 0);
    assert_eq!(r.total_pages, 0);
}

#[test]
fn page_query_keeps_filter_and_projection() {
    let (_, plan) = PaginateBuilder::new((), 3, 15)
        .filter(Document::single(s("active"), Bson::Boolean(true)))
        .select(vec![s("name"), s("score")])
        .into_plan();
    assert_eq!(plan.skip, 30);
    assert_eq!(plan.limit, 15);
    assert_eq!(plan.filter.into_entries(), vec![(s("active"), Bson::Boolean(true))]);
    assert_eq!(
        plan.projection.unwrap().into_entries(),
        vec![(s("name"), Bson::Int32(1)), (s("score"), Bson::Int32(1))]
    );
    assert!(plan.sort.is_none());
}
