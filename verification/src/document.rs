//! BSON values and ordered documents as plain data.
//!
//! A `Document` keeps its entries in insertion order and never holds the same
//! key twice: inserting an existing key replaces its value where it stands,
//! inserting a new key appends it.
use vstd::prelude::*;

verus! {

broadcast use vstd::std_specs::vec::group_vec_axioms, vstd::seq::group_seq_axioms;

/// A 12-byte MongoDB object identifier.
#[derive(Clone, Copy, PartialEq, Eq, Debug)]
pub struct ObjectId {
    pub bytes: [u8; 12],
}

/// A BSON value.
///
/// `Double` carries the IEEE-754 bit pattern of a 64-bit floating point
/// number; the library never interprets it.
#[derive(Debug, PartialEq)]
pub enum Bson {
    Null,
    Boolean(bool),
    Int32(i32),
    Int64(i64),
    Double(u64),
    String(String),
    Array(Vec<Bson>),
    Document(Document),
    ObjectId(ObjectId),
    /// Milliseconds since the Unix epoch.
    DateTime(i64),
    /// A regular expression and its option letters.
    RegularExpression { pattern: String, options: String },
    JavaScriptCode(String),
    JavaScriptCodeWithScope { code: String, scope: Document },
    /// A replication timestamp: seconds since the epoch and an ordinal.
    Timestamp { time: u32, increment: u32 },
    /// Bytes with their BSON binary subtype number.
    Binary { subtype: u8, bytes: Vec<u8> },
    Symbol(String),
    /// The 16 bytes of an IEEE-754 decimal128 number, never interpreted.
    Decimal128([u8; 16]),
    Undefined,
    MaxKey,
    MinKey,
    DbPointer { namespace: String, id: ObjectId },
}

/// An ordered BSON document whose keys are pairwise distinct.
#[derive(Debug, PartialEq)]
pub struct Document {
    entries: Vec<(String, Bson)>,
}

/// The mathematical value of a `Bson`.
pub enum BsonSpec {
    Null,
    Boolean(bool),
    Int32(i32),
    Int64(i64),
    Double(u64),
    String(Seq<char>),
    Array(Seq<BsonSpec>),
    Document(Seq<(Seq<char>, BsonSpec)>),
    ObjectId(ObjectId),
    DateTime(i64),
    RegularExpression { pattern: Seq<char>, options: Seq<char> },
    JavaScriptCode(Seq<char>),
    JavaScriptCodeWithScope { code: Seq<char>, scope: Seq<(Seq<char>, BsonSpec)> },
    Timestamp { time: u32, increment: u32 },
    Binary { subtype: u8, bytes: Seq<u8> },
    Symbol(Seq<char>),
    Decimal128([u8; 16]),
    Undefined,
    MaxKey,
    MinKey,
    DbPointer { namespace: Seq<char>, id: ObjectId },
}

/// The mathematical value of a document: its entries in order.
pub type DocSpec = Seq<(Seq<char>, BsonSpec)>;

impl Bson {
    pub open spec fn deep(self) -> BsonSpec
        decreases self, 2int,
    {
        match self {
            Bson::Null => BsonSpec::Null,
            Bson::Boolean(b) => BsonSpec::Boolean(b),
            Bson::Int32(i) => BsonSpec::Int32(i),
            Bson::Int64(i) => BsonSpec::Int64(i),
            Bson::Double(d) => BsonSpec::Double(d),
            Bson::String(s) => BsonSpec::String(s@),
            Bson::Array(a) => BsonSpec::Array(deep_values(a@)),
            Bson::Document(d) => BsonSpec::Document(d.deep_entries()),
            Bson::ObjectId(o) => BsonSpec::ObjectId(o),
            Bson::DateTime(t) => BsonSpec::DateTime(t),
            Bson::RegularExpression { pattern, options } => BsonSpec::RegularExpression {
                pattern: pattern@,
                options: options@,
            },
            Bson::JavaScriptCode(c) => BsonSpec::JavaScriptCode(c@),
            Bson::JavaScriptCodeWithScope { code, scope } => BsonSpec::JavaScriptCodeWithScope {
                code: code@,
                scope: scope.deep_entries(),
            },
            Bson::Timestamp { time, increment } => BsonSpec::Timestamp { time, increment },
            Bson::Binary { subtype, bytes } => BsonSpec::Binary { subtype, bytes: bytes@ },
            Bson::Symbol(s) => BsonSpec::Symbol(s@),
            Bson::Decimal128(b) => BsonSpec::Decimal128(b),
            Bson::Undefined => BsonSpec::Undefined,
            Bson::MaxKey => BsonSpec::MaxKey,
            Bson::MinKey => BsonSpec::MinKey,
            Bson::DbPointer { namespace, id } => BsonSpec::DbPointer { namespace: namespace@, id },
        }
    }
}

/// The values of a sequence of `Bson`s, element by element.
pub open spec fn deep_values(s: Seq<Bson>) -> Seq<BsonSpec>
    decreases s, 1int,
{
    if s.len() == 0 {
        Seq::empty()
    } else {
        deep_values(s.drop_last()).push(s.last().deep())
    }
}

impl Document {
    pub closed spec fn deep_entries(&self) -> DocSpec
        decreases *self, 1int,
    {
        deep_pairs(self.entries@)
    }

    #[verifier::type_invariant]
    spec fn keys_distinct(self) -> bool {
        keys_unique(deep_pairs(self.entries@))
    }
}

impl View for Document {
    type V = DocSpec;

    open spec fn view(&self) -> DocSpec {
        self.deep_entries()
    }
}

pub closed spec fn deep_pairs(s: Seq<(String, Bson)>) -> DocSpec
    decreases s, 0int,
{
    if s.len() == 0 {
        Seq::empty()
    } else {
        deep_pairs(s.drop_last()).push((s.last().0@, s.last().1.deep()))
    }
}

proof fn lemma_deep_pairs(s: Seq<(String, Bson)>)
    ensures
        deep_pairs(s).len() == s.len(),
        forall|i: int| 0 <= i < s.len() ==> #[trigger] deep_pairs(s)[i] == (s[i].0@, s[i].1.deep()),
    decreases s.len(),
{
    if s.len() > 0 {
        lemma_deep_pairs(s.drop_last());
    }
}

pub proof fn lemma_deep_values(s: Seq<Bson>)
    ensures
        deep_values(s).len() == s.len(),
        forall|i: int| 0 <= i < s.len() ==> #[trigger] deep_values(s)[i] == s[i].deep(),
    decreases s.len(),
{
    if s.len() > 0 {
        lemma_deep_values(s.drop_last());
    }
}

/// No key occurs twice.
pub open spec fn keys_unique(s: DocSpec) -> bool {
    forall|i: int, j: int| 0 <= i < s.len() && 0 <= j < s.len() && i != j ==> #[trigger] s[i].0 != #[trigger] s[j].0
}

/// `k` is a key of `s`.
pub open spec fn has_key(s: DocSpec, k: Seq<char>) -> bool {
    exists|i: int| 0 <= i < s.len() && #[trigger] s[i].0 == k
}

/// `i` is the first position of key `k` in `s`.
pub open spec fn is_first_key_pos(s: DocSpec, k: Seq<char>, i: int) -> bool {
    &&& 0 <= i < s.len()
    &&& s[i].0 == k
    &&& forall|j: int| 0 <= j < i ==> #[trigger] s[j].0 != k
}

/// The position of key `k` in `s` (meaningful when `has_key(s, k)`).
pub open spec fn key_pos(s: DocSpec, k: Seq<char>) -> int {
    choose|i: int| is_first_key_pos(s, k, i)
}

/// The value stored under `k`, if any.
pub open spec fn doc_get(s: DocSpec, k: Seq<char>) -> Option<BsonSpec> {
    if has_key(s, k) {
        Some(s[key_pos(s, k)].1)
    } else {
        None
    }
}

/// `s` after setting `k` to `v`: an existing key keeps its position and takes
/// the new value, a new key is appended.
pub open spec fn doc_insert(s: DocSpec, k: Seq<char>, v: BsonSpec) -> DocSpec {
    if has_key(s, k) {
        s.update(key_pos(s, k), (k, v))
    } else {
        s.push((k, v))
    }
}

/// A first position exists whenever the key does, and it is unique.
pub proof fn lemma_key_pos(s: DocSpec, k: Seq<char>)
    requires
        has_key(s, k),
    ensures
        is_first_key_pos(s, k, key_pos(s, k)),
        forall|i: int| #[trigger] is_first_key_pos(s, k, i) ==> i == key_pos(s, k),
{
    let w = choose|i: int| 0 <= i < s.len() && #[trigger] s[i].0 == k;
    lemma_first_pos_exists(s, k, w);
    let p = key_pos(s, k);
    assert forall|i: int| #[trigger] is_first_key_pos(s, k, i) implies i == p by {
        if i < p {
            assert(s[i].0 == k);
        } else if p < i {
            assert(s[p].0 == k);
        }
    }
}

proof fn lemma_first_pos_exists(s: DocSpec, k: Seq<char>, w: int)
    requires
        0 <= w < s.len(),
        s[w].0 == k,
    ensures
        exists|i: int| is_first_key_pos(s, k, i),
    decreases w,
{
    if exists|j: int| 0 <= j < w && #[trigger] s[j].0 == k {
        let j = choose|j: int| 0 <= j < w && #[trigger] s[j].0 == k;
        lemma_first_pos_exists(s, k, j);
    } else {
        assert(is_first_key_pos(s, k, w));
    }
}

/// A key whose length differs from that of every key present is absent.
pub proof fn lemma_absent_key(s: DocSpec, k: Seq<char>)
    requires
        forall|i: int| 0 <= i < s.len() ==> #[trigger] s[i].0.len() != k.len(),
    ensures
        !has_key(s, k),
{
    if has_key(s, k) {
        let i = choose|i: int| 0 <= i < s.len() && #[trigger] s[i].0 == k;
        assert(s[i].0.len() != k.len());
    }
}

/// Setting a key never makes a key occur twice.
pub proof fn lemma_insert_keeps_keys_unique(s: DocSpec, k: Seq<char>, v: BsonSpec)
    requires
        keys_unique(s),
    ensures
        keys_unique(doc_insert(s, k, v)),
{
    if has_key(s, k) {
        lemma_key_pos(s, k);
    }
}

/// After setting `k` to `v`, reading `k` gives `v`, and every other key
/// reads as before.
pub proof fn lemma_get_after_insert(s: DocSpec, k: Seq<char>, v: BsonSpec, k2: Seq<char>)
    ensures
        doc_get(doc_insert(s, k, v), k) == Some(v),
        k2 != k ==> doc_get(doc_insert(s, k, v), k2) == doc_get(s, k2),
{
    let t = doc_insert(s, k, v);
    if has_key(s, k) {
        lemma_key_pos(s, k);
        let p = key_pos(s, k);
        assert(t[p].0 == k);
        lemma_key_pos(t, k);
        assert(is_first_key_pos(t, k, p));
        if k2 != k {
            if has_key(s, k2) {
                lemma_key_pos(s, k2);
                let q = key_pos(s, k2);
                assert(t[q].0 == k2);
                lemma_key_pos(t, k2);
                assert(is_first_key_pos(t, k2, q));
            } else {
                assert forall|i: int| 0 <= i < t.len() implies #[trigger] t[i].0 != k2 by {
                    if i != p {
                        assert(t[i] == s[i]);
                    }
                }
            }
        }
    } else {
        let n = s.len() as int;
        assert(t[n].0 == k);
        assert forall|j: int| 0 <= j < n implies #[trigger] t[j].0 != k by {
            assert(t[j] == s[j]);
        }
        lemma_key_pos(t, k);
        assert(is_first_key_pos(t, k, n));
        if k2 != k {
            if has_key(s, k2) {
                lemma_key_pos(s, k2);
                let q = key_pos(s, k2);
                assert(t[q] == s[q]);
                lemma_key_pos(t, k2);
                assert(is_first_key_pos(t, k2, q));
            } else {
                assert forall|i: int| 0 <= i < t.len() implies #[trigger] t[i].0 != k2 by {
                    if i < n {
                        assert(t[i] == s[i]);
                    }
                }
            }
        }
    }
}

/// Setting a key twice is the same as setting it once to the second value.
pub proof fn lemma_insert_twice(s: DocSpec, k: Seq<char>, v1: BsonSpec, v2: BsonSpec)
    ensures
        doc_insert(doc_insert(s, k, v1), k, v2) == doc_insert(s, k, v2),
{
    let t = doc_insert(s, k, v1);
    if has_key(s, k) {
        lemma_key_pos(s, k);
        let p = key_pos(s, k);
        assert(t[p].0 == k);
        lemma_key_pos(t, k);
        assert(is_first_key_pos(t, k, p));
        assert(doc_insert(t, k, v2) =~= doc_insert(s, k, v2));
    } else {
        let n = s.len() as int;
        assert(t[n].0 == k);
        assert forall|j: int| 0 <= j < n implies #[trigger] t[j].0 != k by {
            assert(t[j] == s[j]);
        }
        lemma_key_pos(t, k);
        assert(is_first_key_pos(t, k, n));
        assert(doc_insert(t, k, v2) =~= doc_insert(s, k, v2));
    }
}

/// Setting a key to the value it already holds changes nothing.
pub proof fn lemma_insert_same(s: DocSpec, k: Seq<char>, v: BsonSpec)
    requires
        doc_get(s, k) == Some(v),
    ensures
        doc_insert(s, k, v) == s,
{
    lemma_key_pos(s, k);
    assert(doc_insert(s, k, v) =~= s);
}

impl Document {
    /// An empty document.
    pub fn new() -> (d: Document)
        ensures
            d@ == Seq::<(Seq<char>, BsonSpec)>::empty(),
    {
        let d = Document { entries: Vec::new() };
        proof {
            lemma_deep_pairs(d.entries@);
        }
        d
    }

    /// A document with the single entry `key: value`.
    pub fn single(key: String, value: Bson) -> (d: Document)
        ensures
            d@ == seq![(key@, value.deep())],
    {
        let mut d = Document::new();
        d.insert(key, value);
        d
    }

    /// The number of entries.
    pub fn len(&self) -> (n: usize)
        ensures
            n == self@.len(),
    {
        proof {
            lemma_deep_pairs(self.entries@);
        }
        self.entries.len()
    }

    /// Sets `key` to `value`: an existing key keeps its position and takes the
    /// new value, which returns the value it held; a new key is appended.
    pub fn insert(&mut self, key: String, value: Bson) -> (previous: Option<Bson>)
        ensures
            final(self)@ == doc_insert(old(self)@, key@, value.deep()),
            keys_unique(final(self)@),
            previous is None <==> !has_key(old(self)@, key@),
            previous matches Some(p) ==> doc_get(old(self)@, key@) == Some(p.deep()),
    {
        proof {
            use_type_invariant(&*self);
        }
        let ghost old_view = self@;
        let mut entries: Vec<(String, Bson)> = Vec::new();
        std::mem::swap(&mut entries, &mut self.entries);
        let ghost s = entries@;
        proof {
            lemma_deep_pairs(s);
        }
        let mut i: usize = 0;
        while i < entries.len()
            invariant
                entries@ == s,
                i <= s.len(),
                deep_pairs(s) == old_view,
                old_view == old(self)@,
                old_view.len() == s.len(),
                forall|j: int| 0 <= j < s.len() ==> #[trigger] old_view[j] == (s[j].0@, s[j].1.deep()),
                forall|j: int| 0 <= j < i ==> #[trigger] s[j].0@ != key@,
                keys_unique(old_view),
            decreases s.len() - i,
        {
            if entries[i].0 == key {
                let ghost kv = key@;
                let ghost vv = value.deep();
                let removed = entries.remove(i);
                entries.insert(i, (key, value));
                proof {
                    assert(is_first_key_pos(old_view, kv, i as int)) by {
                        assert forall|j: int| 0 <= j < i implies #[trigger] old_view[j].0 != kv by {
                            assert(old_view[j] == (s[j].0@, s[j].1.deep()));
                        }
                    }
                    assert(old_view[i as int].0 == kv);
                    assert(has_key(old_view, kv));
                    lemma_key_pos(old_view, kv);
                    assert(entries@ =~= s.update(i as int, entries@[i as int]));
                    lemma_deep_pairs(entries@);
                    assert(deep_pairs(entries@) =~= old_view.update(i as int, (kv, vv)));
                    lemma_insert_keeps_keys_unique(old_view, kv, vv);
                }
                self.entries = entries;
                return Some(removed.1);
            }
            i += 1;
        }
        let ghost kv = key@;
        let ghost vv = value.deep();
        entries.push((key, value));
        proof {
            assert(!has_key(old_view, kv)) by {
                if has_key(old_view, kv) {
                    let j = choose|j: int| 0 <= j < old_view.len() && #[trigger] old_view[j].0 == kv;
                    assert(old_view[j] == (s[j].0@, s[j].1.deep()));
                }
            }
            lemma_deep_pairs(entries@);
            assert(deep_pairs(entries@) =~= old_view.push((kv, vv)));
            lemma_insert_keeps_keys_unique(old_view, kv, vv);
        }
        self.entries = entries;
        None
    }

    /// Appends `key: value` for a key not yet present.
    pub fn push_new(&mut self, key: String, value: Bson)
        requires
            !has_key(old(self)@, key@),
        ensures
            final(self)@ == old(self)@.push((key@, value.deep())),
    {
        self.insert(key, value);
    }

    /// The value stored under `key`, if any.
    pub fn get(&self, key: &String) -> (r: Option<&Bson>)
        ensures
            r is None <==> !has_key(self@, key@),
            r matches Some(v) ==> doc_get(self@, key@) == Some(v.deep()),
    {
        let ghost s = self.entries@;
        proof {
            lemma_deep_pairs(s);
        }
        let mut i: usize = 0;
        while i < self.entries.len()
            invariant
                self.entries@ == s,
                i <= s.len(),
                deep_pairs(s) == self@,
                self@.len() == s.len(),
                forall|j: int| 0 <= j < s.len() ==> #[trigger] self@[j] == (s[j].0@, s[j].1.deep()),
                forall|j: int| 0 <= j < i ==> #[trigger] s[j].0@ != key@,
            decreases s.len() - i,
        {
            if self.entries[i].0 == *key {
                proof {
                    assert(is_first_key_pos(self@, key@, i as int)) by {
                        assert forall|j: int| 0 <= j < i implies #[trigger] self@[j].0 != key@ by {
                            assert(self@[j] == (s[j].0@, s[j].1.deep()));
                        }
                    }
                    lemma_key_pos(self@, key@);
                }
                return Some(&self.entries[i].1);
            }
            i += 1;
        }
        proof {
            if has_key(self@, key@) {
                let j = choose|j: int| 0 <= j < self@.len() && #[trigger] self@[j].0 == key@;
                assert(self@[j] == (s[j].0@, s[j].1.deep()));
            }
        }
        None
    }

    /// Whether `key` is present.
    pub fn contains_key(&self, key: &String) -> (b: bool)
        ensures
            b == has_key(self@, key@),
    {
        self.get(key).is_some()
    }

    /// The entries in order.
    pub fn entries(&self) -> (r: &Vec<(String, Bson)>)
        ensures
            r@.len() == self@.len(),
            forall|i: int| 0 <= i < r@.len() ==> #[trigger] self@[i] == (r@[i].0@, r@[i].1.deep()),
    {
        proof {
            lemma_deep_pairs(self.entries@);
        }
        &self.entries
    }

    /// The entries in order, keys and values taken out of the document.
    pub fn into_entries(self) -> (r: Vec<(String, Bson)>)
        ensures
            r@.len() == self@.len(),
            forall|i: int| 0 <= i < r@.len() ==> #[trigger] self@[i] == (r@[i].0@, r@[i].1.deep()),
    {
        proof {
            lemma_deep_pairs(self.entries@);
        }
        self.entries
    }
}

} // verus!
