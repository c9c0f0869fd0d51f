//! The chainable query builder: filter conditions, sort keys, limit, skip
//! and projection.
use vstd::prelude::*;
use vstd::string::StringExecFns;
use crate::document::{
    deep_values, doc_get, doc_insert, has_key, is_first_key_pos, key_pos, lemma_deep_values,
    lemma_absent_key, lemma_get_after_insert, lemma_insert_twice, lemma_key_pos, Bson, BsonSpec, DocSpec, Document,
};

verus! {

broadcast use vstd::std_specs::vec::group_vec_axioms, vstd::seq::group_seq_axioms;

/// Sort direction for [`QueryBuilder::sort`].
#[derive(Clone, Copy, Debug, PartialEq, Eq, Structural)]
pub enum SortDir {
    /// Ascending order (1).
    Asc,
    /// Descending order (-1).
    Desc,
}

/// The number MongoDB uses for a sort direction.
pub open spec fn sort_order(dir: SortDir) -> i32 {
    match dir {
        SortDir::Asc => 1i32,
        SortDir::Desc => -1i32,
    }
}

impl SortDir {
    /// `1` for ascending, `-1` for descending.
    pub fn order(&self) -> (o: i32)
        ensures
            o == sort_order(*self),
    {
        match self {
            SortDir::Asc => 1,
            SortDir::Desc => -1,
        }
    }
}

/// The value of an optional document.
pub open spec fn opt_doc(o: Option<Document>) -> Option<DocSpec> {
    match o {
        Some(d) => Some(d@),
        None => None,
    }
}

/// The key under which conditions on an already constrained field are joined.
pub open spec fn and_key() -> Seq<char> {
    "$and"@
}

/// An existing `$and` value read as a list of clauses: an array as its
/// elements, any other value as a one-element list.
pub open spec fn and_terms(v: Option<BsonSpec>) -> Seq<BsonSpec> {
    match v {
        None => Seq::empty(),
        Some(BsonSpec::Array(a)) => a,
        Some(x) => seq![x],
    }
}

/// The filter after requiring `cond` of `field`, in addition to what `filter`
/// already requires: a field not yet constrained takes the condition directly;
/// otherwise the clause `{ field: cond }` is appended to the `$and` list.
pub open spec fn add_clause(filter: DocSpec, field: Seq<char>, cond: BsonSpec) -> DocSpec {
    if !has_key(filter, field) {
        doc_insert(filter, field, cond)
    } else {
        doc_insert(
            filter,
            and_key(),
            BsonSpec::Array(
                and_terms(doc_get(filter, and_key())).push(BsonSpec::Document(seq![(field, cond)])),
            ),
        )
    }
}

/// `filter` requires `cond` of `field`: directly, or as a clause of its
/// `$and` list.
pub open spec fn holds_clause(filter: DocSpec, field: Seq<char>, cond: BsonSpec) -> bool {
    ||| doc_get(filter, field) == Some(cond)
    ||| (doc_get(filter, and_key()) matches Some(BsonSpec::Array(a)) && a.contains(
        BsonSpec::Document(seq![(field, cond)]),
    ))
}

/// The operator condition `{ op: v }`.
pub open spec fn op_cond(op: Seq<char>, v: BsonSpec) -> BsonSpec {
    BsonSpec::Document(seq![(op, v)])
}

/// The projection that includes each of `fields`.
pub open spec fn projection_of(fields: Seq<Seq<char>>) -> DocSpec
    decreases fields.len(),
{
    if fields.len() == 0 {
        Seq::empty()
    } else {
        doc_insert(projection_of(fields.drop_last()), fields.last(), BsonSpec::Int32(1))
    }
}

/// The state of a query under construction.
pub struct QueryState {
    pub filter: DocSpec,
    pub sort: Option<DocSpec>,
    pub limit: Option<i64>,
    pub skip: Option<u64>,
    pub projection: Option<DocSpec>,
    pub pending_field: Option<Seq<char>>,
}

/// The state after an operator with condition `cond`: it applies to the field
/// named by the last `where_field`, which it consumes; without one nothing
/// changes.
pub open spec fn after_condition(st: QueryState, cond: BsonSpec) -> QueryState {
    match st.pending_field {
        None => st,
        Some(f) => QueryState { filter: add_clause(st.filter, f, cond), pending_field: None, ..st },
    }
}

/// Chainable query builder.
///
/// `C` is the handle of the collection the query runs against; the builder
/// carries it untouched.
pub struct QueryBuilder<C> {
    collection: C,
    filter: Document,
    sort: Option<Document>,
    limit: Option<i64>,
    skip: Option<u64>,
    projection: Option<Document>,
    pending_field: Option<String>,
}

/// What a finished query asks of the database.
pub struct FindPlan {
    pub filter: Document,
    pub sort: Option<Document>,
    pub limit: Option<i64>,
    pub skip: Option<u64>,
    pub projection: Option<Document>,
}

impl<C> QueryBuilder<C> {
    pub closed spec fn state(&self) -> QueryState {
        QueryState {
            filter: self.filter@,
            sort: opt_doc(self.sort),
            limit: self.limit,
            skip: self.skip,
            projection: opt_doc(self.projection),
            pending_field: match self.pending_field {
                Some(f) => Some(f@),
                None => None,
            },
        }
    }

    pub closed spec fn handle(&self) -> C {
        self.collection
    }

    /// A query with an empty filter and no options.
    pub fn new(collection: C) -> (q: Self)
        ensures
            q.handle() == collection,
            q.state() == (QueryState {
                filter: Seq::empty(),
                sort: None,
                limit: None,
                skip: None,
                projection: None,
                pending_field: None,
            }),
    {
        QueryBuilder {
            collection,
            filter: Document::new(),
            sort: None,
            limit: None,
            skip: None,
            projection: None,
            pending_field: None,
        }
    }

    /// Start a condition on `field`; the next operator applies to it.
    pub fn where_field(self, field: String) -> (q: Self)
        ensures
            q.handle() == self.handle(),
            q.state() == (QueryState { pending_field: Some(field@), ..self.state() }),
    {
        QueryBuilder { pending_field: Some(field), ..self }
    }

    fn add_condition(self, cond: Bson) -> (q: Self)
        ensures
            q.handle() == self.handle(),
            q.state() == after_condition(self.state(), cond.deep()),
    {
        match self.pending_field {
            None => self,
            Some(field) => {
                let mut filter = self.filter;
                add_clause_to(&mut filter, field, cond);
                QueryBuilder {
                    collection: self.collection,
                    filter,
                    sort: self.sort,
                    limit: self.limit,
                    skip: self.skip,
                    projection: self.projection,
                    pending_field: None,
                }
            },
        }
    }

    fn add_operator(self, op: &str, value: Bson) -> (q: Self)
        ensures
            q.handle() == self.handle(),
            q.state() == after_condition(self.state(), op_cond(op@, value.deep())),
    {
        let cond = Document::single(String::from_str(op), value);
        self.add_condition(Bson::Document(cond))
    }

    /// The field equals `value` (`{ field: value }`).
    pub fn eq(self, value: Bson) -> (q: Self)
        ensures
            q.handle() == self.handle(),
            q.state() == after_condition(self.state(), value.deep()),
    {
        self.add_condition(value)
    }

    /// The field is not equal to `value` (`$ne`).
    pub fn ne(self, value: Bson) -> (q: Self)
        ensures
            q.handle() == self.handle(),
            q.state() == after_condition(self.state(), op_cond("$ne"@, value.deep())),
    {
        self.add_operator("$ne", value)
    }

    /// The field is greater than `value` (`$gt`).
    pub fn gt(self, value: Bson) -> (q: Self)
        ensures
            q.handle() == self.handle(),
            q.state() == after_condition(self.state(), op_cond("$gt"@, value.deep())),
    {
        self.add_operator("$gt", value)
    }

    /// The field is greater than or equal to `value` (`$gte`).
    pub fn gte(self, value: Bson) -> (q: Self)
        ensures
            q.handle() == self.handle(),
            q.state() == after_condition(self.state(), op_cond("$gte"@, value.deep())),
    {
        self.add_operator("$gte", value)
    }

    /// The field is less than `value` (`$lt`).
    pub fn lt(self, value: Bson) -> (q: Self)
        ensures
            q.handle() == self.handle(),
            q.state() == after_condition(self.state(), op_cond("$lt"@, value.deep())),
    {
        self.add_operator("$lt", value)
    }

    /// The field is less than or equal to `value` (`$lte`).
    pub fn lte(self, value: Bson) -> (q: Self)
        ensures
            q.handle() == self.handle(),
            q.state() == after_condition(self.state(), op_cond("$lte"@, value.deep())),
    {
        self.add_operator("$lte", value)
    }

    /// The field is one of `values` (`$in`).
    pub fn in_list(self, values: Vec<Bson>) -> (q: Self)
        ensures
            q.handle() == self.handle(),
            q.state() == after_condition(
                self.state(),
                op_cond("$in"@, BsonSpec::Array(deep_values(values@))),
            ),
    {
        self.add_operator("$in", Bson::Array(values))
    }

    /// The field is none of `values` (`$nin`).
    pub fn nin(self, values: Vec<Bson>) -> (q: Self)
        ensures
            q.handle() == self.handle(),
            q.state() == after_condition(
                self.state(),
                op_cond("$nin"@, BsonSpec::Array(deep_values(values@))),
            ),
    {
        self.add_operator("$nin", Bson::Array(values))
    }

    /// The field matches the regular expression `pattern` with option letters
    /// `flags` (`$regex`, `$options`).
    pub fn regex(self, pattern: String, flags: String) -> (q: Self)
        ensures
            q.handle() == self.handle(),
            q.state() == after_condition(
                self.state(),
                BsonSpec::Document(
                    seq![
                        ("$regex"@, BsonSpec::String(pattern@)),
                        ("$options"@, BsonSpec::String(flags@)),
                    ],
                ),
            ),
    {
        let ghost p = pattern@;
        let ghost f = flags@;
        let mut cond = Document::single(String::from_str("$regex"), Bson::String(pattern));
        proof {
            reveal_strlit("$regex");
            reveal_strlit("$options");
            lemma_absent_key(cond@, "$options"@);
        }
        cond.push_new(String::from_str("$options"), Bson::String(flags));
        proof {
            assert(cond@ =~= seq![("$regex"@, BsonSpec::String(p)), ("$options"@, BsonSpec::String(f))]);
        }
        self.add_condition(Bson::Document(cond))
    }

    /// The field exists (`true`) or is absent (`false`) (`$exists`).
    pub fn field_exists(self, should_exist: bool) -> (q: Self)
        ensures
            q.handle() == self.handle(),
            q.state() == after_condition(
                self.state(),
                op_cond("$exists"@, BsonSpec::Boolean(should_exist)),
            ),
    {
        self.add_operator("$exists", Bson::Boolean(should_exist))
    }

    /// Return at most `n` documents.
    pub fn limit(self, n: i64) -> (q: Self)
        ensures
            q.handle() == self.handle(),
            q.state() == (QueryState { limit: Some(n), ..self.state() }),
    {
        QueryBuilder { limit: Some(n), ..self }
    }

    /// Skip the first `n` documents.
    pub fn skip(self, n: u64) -> (q: Self)
        ensures
            q.handle() == self.handle(),
            q.state() == (QueryState { skip: Some(n), ..self.state() }),
    {
        QueryBuilder { skip: Some(n), ..self }
    }

    /// Add the sort key `field` in direction `dir`, after the keys already
    /// given (a repeated field keeps its place and takes the new direction).
    pub fn sort(self, field: String, dir: SortDir) -> (q: Self)
        ensures
            q.handle() == self.handle(),
            q.state() == (QueryState {
                sort: Some(
                    doc_insert(
                        match self.state().sort {
                            Some(s) => s,
                            None => Seq::empty(),
                        },
                        field@,
                        BsonSpec::Int32(sort_order(dir)),
                    ),
                ),
                ..self.state()
            }),
    {
        let mut keys = match self.sort {
            Some(d) => d,
            None => Document::new(),
        };
        keys.insert(field, Bson::Int32(dir.order()));
        QueryBuilder {
            collection: self.collection,
            filter: self.filter,
            sort: Some(keys),
            limit: self.limit,
            skip: self.skip,
            projection: self.projection,
            pending_field: self.pending_field,
        }
    }

    /// Return only `fields` (plus `_id`): replaces any earlier projection.
    pub fn select(self, fields: Vec<String>) -> (q: Self)
        ensures
            q.handle() == self.handle(),
            q.state() == (QueryState {
                projection: Some(projection_of(fields@.map_values(|f: String| f@))),
                ..self.state()
            }),
    {
        let proj = select_projection(fields);
        QueryBuilder { projection: Some(proj), ..self }
    }

    /// Replace the whole filter with `raw`.
    pub fn filter(self, raw: Document) -> (q: Self)
        ensures
            q.handle() == self.handle(),
            q.state() == (QueryState { filter: raw@, ..self.state() }),
    {
        QueryBuilder { filter: raw, ..self }
    }

    /// Hand out the collection handle and what the query asks for.
    pub fn into_plan(self) -> (r: (C, FindPlan))
        ensures
            r.0 == self.handle(),
            r.1.filter@ == self.state().filter,
            opt_doc(r.1.sort) == self.state().sort,
            r.1.limit == self.state().limit,
            r.1.skip == self.state().skip,
            opt_doc(r.1.projection) == self.state().projection,
    {
        (
            self.collection,
            FindPlan {
                filter: self.filter,
                sort: self.sort,
                limit: self.limit,
                skip: self.skip,
                projection: self.projection,
            },
        )
    }
}

/// Adds the condition `cond` on `field` to `filter`.
fn add_clause_to(filter: &mut Document, field: String, cond: Bson)
    ensures
        final(filter)@ == add_clause(old(filter)@, field@, cond.deep()),
{
    if !filter.contains_key(&field) {
        filter.insert(field, cond);
    } else {
        let ghost f = field@;
        let ghost c = cond.deep();
        let ghost s = filter@;
        let clause = Document::single(field, cond);
        let key = String::from_str("$and");
        let previous = filter.insert(key.clone(), Bson::Null);
        let ghost mid = filter@;
        let mut terms: Vec<Bson> = match previous {
            None => Vec::new(),
            Some(Bson::Array(a)) => a,
            Some(other) => {
                let mut v = Vec::new();
                v.push(other);
                v
            },
        };
        proof {
            lemma_deep_values(terms@);
            assert(deep_values(terms@) =~= and_terms(doc_get(s, and_key())));
        }
        terms.push(Bson::Document(clause));
        proof {
            lemma_deep_values(terms@);
            assert(deep_values(terms@) =~= and_terms(doc_get(s, and_key())).push(
                BsonSpec::Document(seq![(f, c)]),
            ));
        }
        filter.insert(key, Bson::Array(terms));
        proof {
            lemma_insert_twice(s, and_key(), BsonSpec::Null, BsonSpec::Array(deep_values(terms@)));
        }
    }
}

/// The inclusion projection of `fields`: each field set to `1`.
pub fn select_projection(fields: Vec<String>) -> (d: Document)
    ensures
        d@ == projection_of(fields@.map_values(|f: String| f@)),
{
    let ghost names = fields@.map_values(|f: String| f@);
    let mut d = Document::new();
    let mut i: usize = 0;
    proof {
        assert(names.subrange(0, 0) =~= Seq::<Seq<char>>::empty());
    }
    while i < fields.len()
        invariant
            i <= fields@.len(),
            names == fields@.map_values(|f: String| f@),
            d@ == projection_of(names.subrange(0, i as int)),
        decreases fields@.len() - i,
    {
        d.insert(fields[i].clone(), Bson::Int32(1));
        proof {
            let m = names.subrange(0, i + 1);
            assert(m.drop_last() =~= names.subrange(0, i as int));
        }
        i += 1;
    }
    proof {
        assert(names.subrange(0, fields@.len() as int) =~= names);
    }
    d
}

/// A projection built from a list of fields includes each listed field with
/// `1` and holds no other field.
pub proof fn law_projection_includes_exactly_the_fields(fields: Seq<Seq<char>>, k: Seq<char>)
    ensures
        doc_get(projection_of(fields), k) == (if fields.contains(k) {
            Some(BsonSpec::Int32(1))
        } else {
            None::<BsonSpec>
        }),
    decreases fields.len(),
{
    if fields.len() == 0 {
        assert(!has_key(projection_of(fields), k));
    } else {
        let p = fields.drop_last();
        law_projection_includes_exactly_the_fields(p, k);
        lemma_get_after_insert(projection_of(p), fields.last(), BsonSpec::Int32(1), k);
        if p.contains(k) {
            let i = choose|i: int| 0 <= i < p.len() && p[i] == k;
            assert(fields[i] == k);
        }
        if fields.contains(k) && k != fields.last() {
            let i = choose|i: int| 0 <= i < fields.len() && fields[i] == k;
            assert(i < p.len() && p[i] == k);
        }
    }
}

/// A clause that a filter requires stays required when another condition is
/// added, and the added condition is required too.
pub proof fn law_conditions_accumulate(
    filter: DocSpec,
    field: Seq<char>,
    cond: BsonSpec,
    g: Seq<char>,
    c: BsonSpec,
)
    requires
        field != and_key(),
        g != and_key(),
        holds_clause(filter, g, c),
    ensures
        holds_clause(add_clause(filter, field, cond), field, cond),
        holds_clause(add_clause(filter, field, cond), g, c),
{
    let t = add_clause(filter, field, cond);
    if !has_key(filter, field) {
        lemma_get_after_insert(filter, field, cond, g);
        lemma_get_after_insert(filter, field, cond, and_key());
    } else {
        let arr = BsonSpec::Array(
            and_terms(doc_get(filter, and_key())).push(BsonSpec::Document(seq![(field, cond)])),
        );
        lemma_get_after_insert(filter, and_key(), arr, g);
        lemma_get_after_insert(filter, and_key(), arr, and_key());
        let terms = and_terms(doc_get(filter, and_key())).push(BsonSpec::Document(seq![(field, cond)]));
        assert(terms[terms.len() - 1] == BsonSpec::Document(seq![(field, cond)]));
        if doc_get(filter, g) != Some(c) {
            if let Some(BsonSpec::Array(a)) = doc_get(filter, and_key()) {
                let i = choose|i: int| 0 <= i < a.len() && a[i] == BsonSpec::Document(seq![(g, c)]);
                assert(terms[i] == a[i]);
            }
        }
    }
}

} // verus!
