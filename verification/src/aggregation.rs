//! A fluent builder for aggregation pipelines.
use vstd::prelude::*;
use vstd::string::StringExecFns;
use crate::document::{lemma_absent_key, Bson, BsonSpec, DocSpec, Document};

verus! {

broadcast use vstd::std_specs::vec::group_vec_axioms, vstd::seq::group_seq_axioms;

/// An aggregation pipeline under construction: its stages run in the order
/// they were added. `C` is the handle of the collection it runs against.
pub struct AggregationPipeline<C> {
    collection: C,
    stages: Vec<Document>,
}

/// The one-entry stage `{ name: value }`.
pub open spec fn stage(name: Seq<char>, value: BsonSpec) -> DocSpec {
    seq![(name, value)]
}

/// The values of a sequence of documents.
pub open spec fn docs_view(s: Seq<Document>) -> Seq<DocSpec> {
    s.map_values(|d: Document| d@)
}

fn named_stage(name: &str, value: Bson) -> (d: Document)
    ensures
        d@ == stage(name@, value.deep()),
{
    Document::single(String::from_str(name), value)
}

impl<C> AggregationPipeline<C> {
    /// The stages so far, in order.
    pub closed spec fn stages(&self) -> Seq<DocSpec> {
        docs_view(self.stages@)
    }

    pub closed spec fn handle(&self) -> C {
        self.collection
    }

    /// A pipeline with no stages.
    pub fn new(collection: C) -> (p: Self)
        ensures
            p.handle() == collection,
            p.stages() == Seq::<DocSpec>::empty(),
    {
        AggregationPipeline { collection, stages: Vec::new() }
    }

    fn push_stage(self, stage: Document) -> (p: Self)
        ensures
            p.handle() == self.handle(),
            p.stages() == self.stages().push(stage@),
    {
        let mut stages = self.stages;
        let ghost before = stages@;
        stages.push(stage);
        proof {
            assert(docs_view(stages@) =~= docs_view(before).push(stage@));
        }
        AggregationPipeline { collection: self.collection, stages }
    }

    /// `$match`: keep the documents matching `filter`.
    pub fn match_stage(self, filter: Document) -> (p: Self)
        ensures
            p.handle() == self.handle(),
            p.stages() == self.stages().push(stage("$match"@, BsonSpec::Document(filter@))),
    {
        self.push_stage(named_stage("$match", Bson::Document(filter)))
    }

    /// `$sort`: order the documents.
    pub fn sort(self, sort: Document) -> (p: Self)
        ensures
            p.handle() == self.handle(),
            p.stages() == self.stages().push(stage("$sort"@, BsonSpec::Document(sort@))),
    {
        self.push_stage(named_stage("$sort", Bson::Document(sort)))
    }

    /// `$limit`: keep the first `n` documents.
    pub fn limit(self, n: i64) -> (p: Self)
        ensures
            p.handle() == self.handle(),
            p.stages() == self.stages().push(stage("$limit"@, BsonSpec::Int64(n))),
    {
        self.push_stage(named_stage("$limit", Bson::Int64(n)))
    }

    /// `$skip`: discard the first `n` documents.
    pub fn skip(self, n: i64) -> (p: Self)
        ensures
            p.handle() == self.handle(),
            p.stages() == self.stages().push(stage("$skip"@, BsonSpec::Int64(n))),
    {
        self.push_stage(named_stage("$skip", Bson::Int64(n)))
    }

    /// `$project`: reshape each document.
    pub fn project(self, projection: Document) -> (p: Self)
        ensures
            p.handle() == self.handle(),
            p.stages() == self.stages().push(stage("$project"@, BsonSpec::Document(projection@))),
    {
        self.push_stage(named_stage("$project", Bson::Document(projection)))
    }

    /// `$unwind`: one document per element of the array at `path`.
    pub fn unwind(self, path: String) -> (p: Self)
        ensures
            p.handle() == self.handle(),
            p.stages() == self.stages().push(stage("$unwind"@, BsonSpec::String(path@))),
    {
        self.push_stage(named_stage("$unwind", Bson::String(path)))
    }

    /// `$unwind` with options: `preserve_null` keeps documents whose array
    /// is null, missing or empty.
    pub fn unwind_opts(self, path: String, preserve_null: bool) -> (p: Self)
        ensures
            p.handle() == self.handle(),
            p.stages() == self.stages().push(
                stage(
                    "$unwind"@,
                    BsonSpec::Document(
                        seq![
                            ("path"@, BsonSpec::String(path@)),
                            ("preserveNullAndEmptyArrays"@, BsonSpec::Boolean(preserve_null)),
                        ],
                    ),
                ),
            ),
    {
        let mut opts = Document::single(String::from_str("path"), Bson::String(path));
        proof {
            reveal_strlit("path");
            reveal_strlit("preserveNullAndEmptyArrays");
            lemma_absent_key(opts@, "preserveNullAndEmptyArrays"@);
        }
        opts.push_new(String::from_str("preserveNullAndEmptyArrays"), Bson::Boolean(preserve_null));
        proof {
            assert(opts@ =~= seq![
                ("path"@, BsonSpec::String(path@)),
                ("preserveNullAndEmptyArrays"@, BsonSpec::Boolean(preserve_null)),
            ]);
        }
        self.push_stage(named_stage("$unwind", Bson::Document(opts)))
    }

    /// `$group`: group the documents and apply accumulators.
    pub fn group(self, group: Document) -> (p: Self)
        ensures
            p.handle() == self.handle(),
            p.stages() == self.stages().push(stage("$group"@, BsonSpec::Document(group@))),
    {
        self.push_stage(named_stage("$group", Bson::Document(group)))
    }

    /// `$lookup`: left outer join with the collection `from`, matching
    /// `local_field` against `foreign_field`, into the array `as_field`.
    pub fn lookup(self, from: String, local_field: String, foreign_field: String, as_field: String) -> (p: Self)
        ensures
            p.handle() == self.handle(),
            p.stages() == self.stages().push(
                stage(
                    "$lookup"@,
                    BsonSpec::Document(
                        seq![
                            ("from"@, BsonSpec::String(from@)),
                            ("localField"@, BsonSpec::String(local_field@)),
                            ("foreignField"@, BsonSpec::String(foreign_field@)),
                            ("as"@, BsonSpec::String(as_field@)),
                        ],
                    ),
                ),
            ),
    {
        proof {
            reveal_strlit("from");
            reveal_strlit("localField");
            reveal_strlit("foreignField");
            reveal_strlit("as");
        }
        let mut spec = Document::single(String::from_str("from"), Bson::String(from));
        proof {
            lemma_absent_key(spec@, "localField"@);
        }
        spec.push_new(String::from_str("localField"), Bson::String(local_field));
        proof {
            lemma_absent_key(spec@, "foreignField"@);
        }
        spec.push_new(String::from_str("foreignField"), Bson::String(foreign_field));
        proof {
            lemma_absent_key(spec@, "as"@);
        }
        spec.push_new(String::from_str("as"), Bson::String(as_field));
        proof {
            assert(spec@ =~= seq![
                ("from"@, BsonSpec::String(from@)),
                ("localField"@, BsonSpec::String(local_field@)),
                ("foreignField"@, BsonSpec::String(foreign_field@)),
                ("as"@, BsonSpec::String(as_field@)),
            ]);
        }
        self.push_stage(named_stage("$lookup", Bson::Document(spec)))
    }

    /// `$addFields`: add or overwrite fields.
    pub fn add_fields(self, fields: Document) -> (p: Self)
        ensures
            p.handle() == self.handle(),
            p.stages() == self.stages().push(stage("$addFields"@, BsonSpec::Document(fields@))),
    {
        self.push_stage(named_stage("$addFields", Bson::Document(fields)))
    }

    /// `$replaceRoot`: promote the document at `new_root` to the top level.
    pub fn replace_root(self, new_root: String) -> (p: Self)
        ensures
            p.handle() == self.handle(),
            p.stages() == self.stages().push(
                stage(
                    "$replaceRoot"@,
                    BsonSpec::Document(seq![("newRoot"@, BsonSpec::String(new_root@))]),
                ),
            ),
    {
        let root = named_stage("newRoot", Bson::String(new_root));
        self.push_stage(named_stage("$replaceRoot", Bson::Document(root)))
    }

    /// `$count`: one document holding the number of documents in `field`.
    pub fn count(self, field: String) -> (p: Self)
        ensures
            p.handle() == self.handle(),
            p.stages() == self.stages().push(stage("$count"@, BsonSpec::String(field@))),
    {
        self.push_stage(named_stage("$count", Bson::String(field)))
    }

    /// Add `stage` as it is.
    pub fn raw_stage(self, stage: Document) -> (p: Self)
        ensures
            p.handle() == self.handle(),
            p.stages() == self.stages().push(stage@),
    {
        self.push_stage(stage)
    }

    /// Hand out the collection handle and the stages in order.
    pub fn into_stages(self) -> (r: (C, Vec<Document>))
        ensures
            r.0 == self.handle(),
            docs_view(r.1@) == self.stages(),
    {
        (self.collection, self.stages)
    }
}

} // verus!
