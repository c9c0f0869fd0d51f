//! Page-based access: page arithmetic and the page query.
use vstd::prelude::*;
use crate::document::{DocSpec, Document};
use crate::query::{opt_doc, projection_of, select_projection};

verus! {

broadcast use vstd::std_specs::vec::group_vec_axioms, vstd::seq::group_seq_axioms;

/// One page of results with its paging metadata.
#[derive(Debug)]
pub struct PaginatedResult<T> {
    pub docs: Vec<T>,
    pub total: u64,
    pub page: u64,
    pub per_page: u64,
    pub total_pages: u64,
    pub has_next: bool,
    pub has_prev: bool,
}

/// The number of pages of `per_page` documents that `total` documents fill:
/// `ceil(total / per_page)`, and `0` when `per_page` is `0`.
pub open spec fn page_count(total: nat, per_page: nat) -> nat {
    if per_page == 0 {
        0
    } else {
        ((total + per_page - 1) / (per_page as int)) as nat
    }
}

impl<T> PaginatedResult<T> {
    /// The result for page `page` holding `docs`, out of `total` documents.
    pub fn new(docs: Vec<T>, total: u64, page: u64, per_page: u64) -> (r: Self)
        ensures
            r.docs == docs,
            r.total == total,
            r.page == page,
            r.per_page == per_page,
            r.total_pages == page_count(total as nat, per_page as nat),
            r.has_next == (page < r.total_pages),
            r.has_prev == (page > 1),
    {
        let total_pages = if per_page == 0 {
            0
        } else {
            let whole = total / per_page;
            let rest = total % per_page;
            proof {
                lemma_ceiling_by_remainder(total as nat, per_page as nat);
            }
            if rest == 0 {
                whole
            } else {
                whole + 1
            }
        };
        PaginatedResult {
            docs,
            total,
            page,
            per_page,
            total_pages,
            has_next: page < total_pages,
            has_prev: page > 1,
        }
    }
}

/// The ceiling of `total / per_page` is the quotient, plus one when a
/// remainder is left; it fits wherever `total` does.
proof fn lemma_ceiling_by_remainder(total: nat, per_page: nat)
    requires
        per_page > 0,
    ensures
        total % per_page == 0 ==> page_count(total, per_page) == total / per_page,
        total % per_page != 0 ==> page_count(total, per_page) == total / per_page + 1,
        total % per_page != 0 ==> total / per_page + 1 <= total,
{
    let q = total / per_page;
    let r = total % per_page;
    let c = (total + per_page - 1) / (per_page as int);
    assert(q * per_page + r == total && 0 <= r < per_page) by (nonlinear_arith)
        requires
            per_page > 0,
            q == total / per_page,
            r == total % per_page,
    ;
    if r == 0 {
        assert(c == q) by (nonlinear_arith)
            requires
                per_page > 0,
                q * per_page == total,
                c == (total + per_page - 1) / (per_page as int),
        ;
    } else {
        assert(c == q + 1) by (nonlinear_arith)
            requires
                per_page > 0,
                q * per_page + r == total,
                0 < r < per_page,
                c == (total + per_page - 1) / (per_page as int),
        ;
        assert(q + 1 <= total) by (nonlinear_arith)
            requires
                per_page > 0,
                q * per_page + r == total,
                0 < r < per_page,
                q >= 0,
        ;
    }
}

/// `total_pages` is the least number of pages of `per_page` documents that
/// hold all `total` documents.
pub proof fn law_page_count_is_ceiling(total: nat, per_page: nat)
    requires
        per_page > 0,
    ensures
        page_count(total, per_page) * per_page >= total,
        total > 0 ==> (page_count(total, per_page) - 1) * per_page < total,
        total == 0 ==> page_count(total, per_page) == 0,
{
    let n = page_count(total, per_page);
    let q = (total + per_page - 1) / (per_page as int);
    let r = (total + per_page - 1) % (per_page as int);
    assert(q * per_page + r == total + per_page - 1 && 0 <= r < per_page) by (nonlinear_arith)
        requires
            per_page > 0,
            q == (total + per_page - 1) / (per_page as int),
            r == (total + per_page - 1) % (per_page as int),
    ;
    assert(q >= 0) by (nonlinear_arith)
        requires
            per_page > 0,
            q == (total + per_page - 1) / (per_page as int),
    ;
    assert(n * per_page >= total) by (nonlinear_arith)
        requires
            n == q,
            q * per_page + r == total + per_page - 1,
            r < per_page,
    ;
    if total > 0 {
        assert((n - 1) * per_page < total) by (nonlinear_arith)
            requires
                n == q,
                q * per_page + r == total + per_page - 1,
                0 <= r,
        ;
    } else {
        assert(q == 0) by (nonlinear_arith)
            requires
                per_page > 0,
                q * per_page + r == per_page - 1,
                0 <= r < per_page,
        ;
    }
}

/// There is a next page exactly when documents remain after this one.
pub proof fn law_has_next_iff_more_documents(total: nat, page: nat, per_page: nat)
    requires
        per_page > 0,
    ensures
        (page < page_count(total, per_page)) <==> page * per_page < total,
{
    law_page_count_is_ceiling(total, per_page);
    let n = page_count(total, per_page);
    if page < n {
        assert(page * per_page <= (n - 1) * per_page) by (nonlinear_arith)
            requires
                page <= n - 1,
                per_page > 0,
        ;
    } else {
        assert(page * per_page >= n * per_page) by (nonlinear_arith)
            requires
                page >= n,
                per_page > 0,
        ;
    }
}

/// The state of a page query under construction.
pub struct PageState {
    pub filter: DocSpec,
    pub sort: Option<DocSpec>,
    pub page: u64,
    pub per_page: u64,
    pub projection: Option<DocSpec>,
}

/// A page query. `C` is the handle of the collection it runs against.
pub struct PaginateBuilder<C> {
    collection: C,
    filter: Document,
    sort: Option<Document>,
    page: u64,
    per_page: u64,
    projection: Option<Document>,
}

/// What a page query asks of the database.
pub struct PagePlan {
    pub filter: Document,
    pub sort: Option<Document>,
    pub projection: Option<Document>,
    /// Documents before the page.
    pub skip: u64,
    /// Documents on a page.
    pub limit: i64,
    pub page: u64,
    pub per_page: u64,
}

impl<C> PaginateBuilder<C> {
    pub closed spec fn state(&self) -> PageState {
        PageState {
            filter: self.filter@,
            sort: opt_doc(self.sort),
            page: self.page,
            per_page: self.per_page,
            projection: opt_doc(self.projection),
        }
    }

    pub closed spec fn handle(&self) -> C {
        self.collection
    }

    /// Page `page` of `per_page` documents over the whole collection. Pages
    /// are 1-based: a `page` or `per_page` of `0` counts as `1`.
    pub fn new(collection: C, page: u64, per_page: u64) -> (b: Self)
        ensures
            b.handle() == collection,
            b.state() == (PageState {
                filter: Seq::empty(),
                sort: None,
                page: if page == 0 { 1 } else { page },
                per_page: if per_page == 0 { 1 } else { per_page },
                projection: None,
            }),
    {
        PaginateBuilder {
            collection,
            filter: Document::new(),
            sort: None,
            page: if page == 0 { 1 } else { page },
            per_page: if per_page == 0 { 1 } else { per_page },
            projection: None,
        }
    }

    /// The page asked for (1-based).
    pub fn page(&self) -> (p: u64)
        ensures
            p == self.state().page,
    {
        self.page
    }

    /// The number of documents on a page.
    pub fn per_page(&self) -> (n: u64)
        ensures
            n == self.state().per_page,
    {
        self.per_page
    }

    /// Count and page only the documents matching `filter`.
    pub fn filter(self, filter: Document) -> (b: Self)
        ensures
            b.handle() == self.handle(),
            b.state() == (PageState { filter: filter@, ..self.state() }),
    {
        PaginateBuilder { filter, ..self }
    }

    /// Order the documents by `sort` before paging.
    pub fn sort(self, sort: Document) -> (b: Self)
        ensures
            b.handle() == self.handle(),
            b.state() == (PageState { sort: Some(sort@), ..self.state() }),
    {
        PaginateBuilder { sort: Some(sort), ..self }
    }

    /// Return only `fields` (plus `_id`) of each document.
    pub fn select(self, fields: Vec<String>) -> (b: Self)
        ensures
            b.handle() == self.handle(),
            b.state() == (PageState {
                projection: Some(projection_of(fields@.map_values(|f: String| f@))),
                ..self.state()
            }),
    {
        let proj = select_projection(fields);
        PaginateBuilder { projection: Some(proj), ..self }
    }

    /// Hand out the collection handle and the page query: skip the
    /// `(page - 1) * per_page` documents of the earlier pages and return at
    /// most `per_page`.
    pub fn into_plan(self) -> (r: (C, PagePlan))
        requires
            self.state().page >= 1,
            (self.state().page - 1) * self.state().per_page <= u64::MAX,
        ensures
            r.0 == self.handle(),
            r.1.filter@ == self.state().filter,
            opt_doc(r.1.sort) == self.state().sort,
            opt_doc(r.1.projection) == self.state().projection,
            r.1.skip == (self.state().page - 1) * self.state().per_page,
            r.1.limit == self.state().per_page as i64,
            r.1.page == self.state().page,
            r.1.per_page == self.state().per_page,
    {
        let skip = (self.page - 1) * self.per_page;
        (
            self.collection,
            PagePlan {
                filter: self.filter,
                sort: self.sort,
                projection: self.projection,
                skip,
                limit: self.per_page as i64,
                page: self.page,
                per_page: self.per_page,
            },
        )
    }
}

} // verus!
