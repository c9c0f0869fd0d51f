//! Index definitions and their builder.
use vstd::prelude::*;
use vstd::string::StringExecFns;
use crate::document::{doc_insert, Bson, BsonSpec, DocSpec, Document};
use crate::query::opt_doc;
use crate::schema::opt_string_view;

verus! {

broadcast use vstd::std_specs::vec::group_vec_axioms, vstd::seq::group_seq_axioms;

/// A fully described index.
pub struct IndexDef {
    pub keys: Document,
    pub unique: bool,
    pub sparse: bool,
    pub ttl_seconds: Option<u64>,
    pub name: Option<String>,
    pub partial_filter: Option<Document>,
}

/// The value of an index definition.
pub struct IndexSpec {
    pub keys: DocSpec,
    pub unique: bool,
    pub sparse: bool,
    pub ttl_seconds: Option<u64>,
    pub name: Option<Seq<char>>,
    pub partial_filter: Option<DocSpec>,
}

impl View for IndexDef {
    type V = IndexSpec;

    open spec fn view(&self) -> IndexSpec {
        IndexSpec {
            keys: self.keys@,
            unique: self.unique,
            sparse: self.sparse,
            ttl_seconds: self.ttl_seconds,
            name: opt_string_view(self.name),
            partial_filter: opt_doc(self.partial_filter),
        }
    }
}

/// The options the driver is given for an index: an option the definition
/// leaves off is not set at all.
pub struct IndexOptionsPlan {
    pub unique: Option<bool>,
    pub sparse: Option<bool>,
    pub expire_after_secs: Option<u64>,
    pub name: Option<String>,
    pub partial_filter_expression: Option<Document>,
}

impl IndexDef {
    /// The index keys and the driver options for this definition.
    pub fn into_model(self) -> (r: (Document, IndexOptionsPlan))
        ensures
            r.0@ == self@.keys,
            r.1.unique == (if self.unique { Some(true) } else { None::<bool> }),
            r.1.sparse == (if self.sparse { Some(true) } else { None::<bool> }),
            r.1.expire_after_secs == self.ttl_seconds,
            opt_string_view(r.1.name) == self@.name,
            opt_doc(r.1.partial_filter_expression) == self@.partial_filter,
    {
        (
            self.keys,
            IndexOptionsPlan {
                unique: if self.unique {
                    Some(true)
                } else {
                    None
                },
                sparse: if self.sparse {
                    Some(true)
                } else {
                    None
                },
                expire_after_secs: self.ttl_seconds,
                name: self.name,
                partial_filter_expression: self.partial_filter,
            },
        )
    }
}

/// Fluent builder for [`IndexDef`].
pub struct IndexBuilder {
    keys: Document,
    unique: bool,
    sparse: bool,
    ttl_seconds: Option<u64>,
    name: Option<String>,
    partial_filter: Option<Document>,
}

impl View for IndexBuilder {
    type V = IndexSpec;

    closed spec fn view(&self) -> IndexSpec {
        IndexSpec {
            keys: self.keys@,
            unique: self.unique,
            sparse: self.sparse,
            ttl_seconds: self.ttl_seconds,
            name: opt_string_view(self.name),
            partial_filter: opt_doc(self.partial_filter),
        }
    }
}

/// The definition of an index with no keys and no options.
pub open spec fn empty_index() -> IndexSpec {
    IndexSpec {
        keys: Seq::empty(),
        unique: false,
        sparse: false,
        ttl_seconds: None,
        name: None,
        partial_filter: None,
    }
}

impl IndexBuilder {
    /// No keys, no options.
    pub fn new() -> (b: Self)
        ensures
            b@ == empty_index(),
    {
        IndexBuilder {
            keys: Document::new(),
            unique: false,
            sparse: false,
            ttl_seconds: None,
            name: None,
            partial_filter: None,
        }
    }

    fn key(self, name: String, kind: Bson) -> (b: Self)
        ensures
            b@ == (IndexSpec { keys: doc_insert(self@.keys, name@, kind.deep()), ..self@ }),
    {
        let mut keys = self.keys;
        keys.insert(name, kind);
        IndexBuilder { keys, ..self }
    }

    /// Add an ascending key (`1`).
    pub fn field(self, name: String) -> (b: Self)
        ensures
            b@ == (IndexSpec { keys: doc_insert(self@.keys, name@, BsonSpec::Int32(1)), ..self@ }),
    {
        self.key(name, Bson::Int32(1))
    }

    /// Add a descending key (`-1`).
    pub fn field_desc(self, name: String) -> (b: Self)
        ensures
            b@ == (IndexSpec { keys: doc_insert(self@.keys, name@, BsonSpec::Int32(-1i32)), ..self@ }),
    {
        self.key(name, Bson::Int32(-1))
    }

    /// Add a text key (`"text"`).
    pub fn text(self, name: String) -> (b: Self)
        ensures
            b@ == (IndexSpec {
                keys: doc_insert(self@.keys, name@, BsonSpec::String("text"@)),
                ..self@
            }),
    {
        self.key(name, Bson::String(String::from_str("text")))
    }

    /// No two documents may share the key values.
    pub fn unique(self) -> (b: Self)
        ensures
            b@ == (IndexSpec { unique: true, ..self@ }),
    {
        IndexBuilder { unique: true, ..self }
    }

    /// Index only the documents where the keys exist.
    pub fn sparse(self) -> (b: Self)
        ensures
            b@ == (IndexSpec { sparse: true, ..self@ }),
    {
        IndexBuilder { sparse: true, ..self }
    }

    /// Delete documents `seconds` after the indexed time.
    pub fn ttl(self, seconds: u64) -> (b: Self)
        ensures
            b@ == (IndexSpec { ttl_seconds: Some(seconds), ..self@ }),
    {
        IndexBuilder { ttl_seconds: Some(seconds), ..self }
    }

    /// Name the index.
    pub fn name(self, name: String) -> (b: Self)
        ensures
            b@ == (IndexSpec { name: Some(name@), ..self@ }),
    {
        IndexBuilder { name: Some(name), ..self }
    }

    /// Index only the documents matching `filter`.
    pub fn partial_filter(self, filter: Document) -> (b: Self)
        ensures
            b@ == (IndexSpec { partial_filter: Some(filter@), ..self@ }),
    {
        IndexBuilder { partial_filter: Some(filter), ..self }
    }

    /// The definition built so far.
    pub fn build(self) -> (d: IndexDef)
        ensures
            d@ == self@,
    {
        IndexDef {
            keys: self.keys,
            unique: self.unique,
            sparse: self.sparse,
            ttl_seconds: self.ttl_seconds,
            name: self.name,
            partial_filter: self.partial_filter,
        }
    }
}

impl Default for IndexBuilder {
    fn default() -> (b: Self)
        ensures
            b@ == empty_index(),
    {
        Self::new()
    }
}

/// The unique single-field ascending index on `field`.
pub open spec fn unique_field_index(field: Seq<char>) -> IndexSpec {
    IndexSpec { keys: seq![(field, BsonSpec::Int32(1))], unique: true, ..empty_index() }
}

/// One unique ascending index per field, in order.
pub fn unique_field_indexes(fields: &[&str]) -> (defs: Vec<IndexDef>)
    ensures
        defs@.len() == fields@.len(),
        forall|i: int| 0 <= i < fields@.len() ==> #[trigger] defs@[i]@ == unique_field_index(fields@[i]@),
{
    let mut defs: Vec<IndexDef> = Vec::new();
    let mut i: usize = 0;
    while i < fields.len()
        invariant
            i <= fields@.len(),
            defs@.len() == i,
            forall|j: int| 0 <= j < i ==> #[trigger] defs@[j]@ == unique_field_index(fields@[j]@),
        decreases fields@.len() - i,
    {
        let def = IndexBuilder::new().field(String::from_str(fields[i])).unique().build();
        defs.push(def);
        i += 1;
    }
    defs
}

/// Custom indexes a schema type declares.
pub trait MongooseIndexes {
    /// The indexes to create for this collection; by default none.
    fn indexes() -> (defs: Vec<IndexDef>)
        default_ensures
            defs@.len() == 0,
    {
        Vec::new()
    }
}

} // verus!
