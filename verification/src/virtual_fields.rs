//! Virtuals: computed values shown next to a document's own fields.
use vstd::prelude::*;

verus! {

broadcast use vstd::std_specs::vec::group_vec_axioms, vstd::seq::group_seq_axioms;

/// Marker for schema types that define computed properties.
pub trait Virtuals {}

/// The value of a list of named entries.
pub open spec fn named<V>(s: Seq<(String, V)>) -> Seq<(Seq<char>, V)> {
    s.map_values(|e: (String, V)| (e.0@, e.1))
}

/// The map a list of named entries stands for; a later entry for a name
/// replaces an earlier one.
pub open spec fn entries_map<V>(s: Seq<(Seq<char>, V)>) -> Map<Seq<char>, V>
    decreases s.len(),
{
    if s.len() == 0 {
        Map::empty()
    } else {
        entries_map(s.drop_last()).insert(s.last().0, s.last().1)
    }
}

/// No name occurs twice.
pub open spec fn names_unique<V>(s: Seq<(Seq<char>, V)>) -> bool {
    forall|i: int, j: int| 0 <= i < s.len() && 0 <= j < s.len() && i != j ==> #[trigger] s[i].0 != #[trigger] s[j].0
}

proof fn lemma_map_update<V>(s: Seq<(Seq<char>, V)>, p: int, v: V)
    requires
        names_unique(s),
        0 <= p < s.len(),
    ensures
        entries_map(s.update(p, (s[p].0, v))) == entries_map(s).insert(s[p].0, v),
    decreases s.len(),
{
    let k = s[p].0;
    let t = s.update(p, (k, v));
    if p == s.len() - 1 {
        assert(t.drop_last() =~= s.drop_last());
        assert(entries_map(t) =~= entries_map(s).insert(k, v));
    } else {
        let s0 = s.drop_last();
        assert(t.drop_last() =~= s0.update(p, (k, v)));
        assert(names_unique(s0)) by {
            assert forall|i: int, j: int| 0 <= i < s0.len() && 0 <= j < s0.len() && i != j implies #[trigger] s0[i].0 != #[trigger] s0[j].0 by {
                assert(s0[i] == s[i] && s0[j] == s[j]);
            }
        }
        lemma_map_update(s0, p, v);
        assert(s.last().0 != k) by {
            assert(s[s.len() - 1].0 != s[p].0);
        }
        assert(t.last() == s.last());
        assert(entries_map(t) =~= entries_map(s).insert(k, v));
    }
}

/// Set `name` to `value` in `entries`: an existing name keeps its place and
/// takes the new value, a new name is appended.
fn set_entry<V>(entries: &mut Vec<(String, V)>, name: String, value: V)
    requires
        names_unique(named(old(entries)@)),
    ensures
        names_unique(named(final(entries)@)),
        entries_map(named(final(entries)@)) == entries_map(named(old(entries)@)).insert(name@, value),
{
    let ghost s = named(entries@);
    let mut i: usize = 0;
    while i < entries.len()
        invariant
            i <= entries@.len(),
            entries@ == old(entries)@,
            s == named(entries@),
            names_unique(s),
            forall|j: int| 0 <= j < i ==> #[trigger] entries@[j].0@ != name@,
        decreases entries@.len() - i,
    {
        if entries[i].0 == name {
            let ghost nv = name@;
            entries.remove(i);
            entries.insert(i, (name, value));
            proof {
                assert(s[i as int].0 == nv);
                assert(named(entries@) =~= s.update(i as int, (nv, value)));
                lemma_map_update(s, i as int, value);
                let t = named(entries@);
                assert forall|a: int, b: int| 0 <= a < t.len() && 0 <= b < t.len() && a != b implies #[trigger] t[a].0 != #[trigger] t[b].0 by {
                    assert(t[a].0 == s[a].0 && t[b].0 == s[b].0);
                }
            }
            return;
        }
        i += 1;
    }
    let ghost nv = name@;
    entries.push((name, value));
    proof {
        assert forall|j: int| 0 <= j < s.len() implies #[trigger] s[j].0 != nv by {
            assert(s[j].0 == entries@[j].0@);
        }
        assert(named(entries@) =~= s.push((nv, value)));
        assert(named(entries@).drop_last() =~= s);
        assert(entries_map(named(entries@)) == entries_map(s).insert(nv, value));
        let t = named(entries@);
        assert forall|a: int, b: int| 0 <= a < t.len() && 0 <= b < t.len() && a != b implies #[trigger] t[a].0 != #[trigger] t[b].0 by {
            if a < s.len() && b < s.len() {
                assert(t[a] == s[a] && t[b] == s[b]);
            } else if a < s.len() {
                assert(t[a] == s[a]);
            } else {
                assert(t[b] == s[b]);
            }
        }
    }
}

/// A document together with named computed values, shown as one object.
pub struct WithVirtuals<T, V> {
    inner: T,
    virtuals: Vec<(String, V)>,
}

impl<T, V> WithVirtuals<T, V> {
    pub closed spec fn inner_value(&self) -> T {
        self.inner
    }

    /// The computed values by name.
    pub closed spec fn virtual_values(&self) -> Map<Seq<char>, V> {
        entries_map(named(self.virtuals@))
    }

    #[verifier::type_invariant]
    spec fn virtual_names_unique(self) -> bool {
        names_unique(named(self.virtuals@))
    }

    /// `inner` with no computed values.
    pub fn new(inner: T) -> (w: Self)
        ensures
            w.inner_value() == inner,
            w.virtual_values() == Map::<Seq<char>, V>::empty(),
    {
        WithVirtuals { inner, virtuals: Vec::new() }
    }

    /// Set the computed value `name` to `value`, replacing an earlier value
    /// of the same name.
    pub fn add(self, name: String, value: V) -> (w: Self)
        ensures
            w.inner_value() == self.inner_value(),
            w.virtual_values() == self.virtual_values().insert(name@, value),
    {
        proof {
            use_type_invariant(&self);
        }
        let WithVirtuals { inner, virtuals } = self;
        let mut virtuals = virtuals;
        set_entry(&mut virtuals, name, value);
        WithVirtuals { inner, virtuals }
    }

    /// The document.
    pub fn inner(&self) -> (r: &T)
        ensures
            *r == self.inner_value(),
    {
        &self.inner
    }

    /// The computed values, each name once.
    pub fn virtual_entries(&self) -> (r: &Vec<(String, V)>)
        ensures
            names_unique(named(r@)),
            entries_map(named(r@)) == self.virtual_values(),
    {
        proof {
            use_type_invariant(self);
        }
        &self.virtuals
    }

    /// The document and its computed values, each name once.
    pub fn into_parts(self) -> (r: (T, Vec<(String, V)>))
        ensures
            r.0 == self.inner_value(),
            names_unique(named(r.1@)),
            entries_map(named(r.1@)) == self.virtual_values(),
    {
        proof {
            use_type_invariant(&self);
        }
        let WithVirtuals { inner, virtuals } = self;
        (inner, virtuals)
    }
}

/// Set every entry of `src`, in order, in `out`.
fn set_all<V>(out: &mut Vec<(String, V)>, src: Vec<(String, V)>)
    requires
        names_unique(named(old(out)@)),
    ensures
        names_unique(named(final(out)@)),
        entries_map(named(final(out)@)) == entries_map(named(old(out)@)).union_prefer_right(
            entries_map(named(src@)),
        ),
{
    let ghost s0 = named(src@);
    let ghost start = entries_map(named(out@));
    let mut src = src;
    let src_len = src.len();
    let mut j: usize = 0;
    proof {
        assert(named(src@) =~= s0.subrange(0, s0.len() as int));
        assert(s0.len() == src_len);
        assert(start =~= start.union_prefer_right(entries_map(s0.subrange(0, 0))));
    }
    while src.len() > 0
        invariant
            j <= s0.len(),
            s0.len() <= usize::MAX,
            src@.len() == s0.len() - j,
            named(src@) == s0.subrange(j as int, s0.len() as int),
            names_unique(named(out@)),
            entries_map(named(out@)) == start.union_prefer_right(entries_map(s0.subrange(0, j as int))),
        decreases src@.len(),
    {
        let ghost before = named(src@);
        proof {
            assert(before[0] == s0[j as int]);
        }
        let (name, value) = src.remove(0);
        proof {
            assert(s0[j as int] == (name@, value));
        }
        let ghost nv = name@;
        set_entry(out, name, value);
        proof {
            let p = s0.subrange(0, j + 1);
            assert(p.drop_last() =~= s0.subrange(0, j as int));
            assert(p.last() == (nv, value));
            assert(entries_map(p) == entries_map(s0.subrange(0, j as int)).insert(nv, value));
            assert(entries_map(named(out@)) =~= start.union_prefer_right(entries_map(p)));
            assert(named(src@) =~= before.subrange(1, before.len() as int));
            assert(named(src@) =~= s0.subrange(j + 1, s0.len() as int));
        }
        j += 1;
    }
    proof {
        assert(s0.subrange(0, j as int) =~= s0);
    }
}

/// The fields of the shown object: the document's own fields with the
/// computed values set over them, each name once. A computed value replaces
/// a field of the same name.
pub fn merge_virtuals<V>(fields: Vec<(String, V)>, virtuals: Vec<(String, V)>) -> (out: Vec<(String, V)>)
    ensures
        names_unique(named(out@)),
        entries_map(named(out@)) == entries_map(named(fields@)).union_prefer_right(
            entries_map(named(virtuals@)),
        ),
{
    let ghost f = entries_map(named(fields@));
    let ghost v = entries_map(named(virtuals@));
    let mut out: Vec<(String, V)> = Vec::new();
    proof {
        assert(named(out@) =~= Seq::<(Seq<char>, V)>::empty());
    }
    set_all(&mut out, fields);
    proof {
        assert(entries_map(named(out@)) =~= f);
    }
    set_all(&mut out, virtuals);
    out
}

} // verus!
