use mongrel::aggregation::AggregationPipeline;
use mongrel::document::{Bson, Document};

fn s(x: &str) -> String {
    x.to_string()
}

fn stage(name: &str, v: Bson) -> Document {
    Document::single(s(name), v)
}

fn doc(entries: Vec<(&str, Bson)>) -> Document {
    let mut d = Document::new();
    for (k, v) in entries {
        d.insert(s(k), v);
    }
    d
}

#[test]
fn stages_run_in_chain_order() {
    let (handle, stages) = AggregationPipeline::new("orders")
        .match_stage(doc(vec![("status", Bson::String(s("completed")))]))
        .group(doc(vec![("_id", Bson::String(s("$user_id")))]))
        .sort(doc(vec![("total", Bson::Int32(-1))]))
        .skip(20)
        .limit(10)
        .into_stages();
    assert_eq!(handle, "orders");
    assert_eq!(
        stages,
        vec![
            stage("$match", Bson::Document(doc(vec![("status", Bson::String(s("completed")))]))),
            stage("$group", Bson::Document(doc(vec![("_id", Bson::String(s("$user_id")))]))),
            stage("$sort", Bson::Document(doc(vec![("total", Bson::Int32(-1))]))),
            stage("$skip", Bson::Int64(20)),
            stage("$limit", Bson::Int64(10)),
        ]
    );
}

#[test]
fn lookup_names_all_four_fields() {
    let (_, stages) = AggregationPipeline::new(())
        .lookup(s("orders"), s("user_id"), s("_id"), s("user_orders"))
        .into_stages();
    let expected = doc(vec![
        ("from", Bson::String(s("orders"))),
        ("localField", Bson::String(s("user_id"))),
        ("foreignField", Bson::String(s("_id"))),
        ("as", Bson::String(s("user_orders"))),
    ]);
    assert_eq!(stages, vec![stage("$lookup", Bson::Document(expected))]);
}

#[test]
fn unwind_forms_and_reshaping_stages() {
    let (_, stages) = AggregationPipeline::new(())
        .unwind(s("$tags"))
        .unwind_opts(s("$tags"), true)
        .project(doc(vec![("name", Bson::Int32(1))]))
        .add_fields(doc(vec![("n", Bson::Int32(2))]))
        .replace_root(s("$profile"))
        .count(s("total"))
        .raw_stage(doc(vec![("$sample", Bson::Document(doc(vec![("size", Bson::Int32(5))])))]))
        .into_stages();
    assert_eq!(
        stages,
        vec![
            stage("$unwind", Bson::String(s("$tags"))),
            stage(
                "$unwind",
                Bson::Document(doc(vec![
                    ("path", Bson::String(s("$tags"))),
                    ("preserveNullAndEmptyArrays", Bson::Boolean(true)),
                ]))
            ),
            stage("$project", Bson::Document(doc(vec![("name", Bson::Int32(1))]))),
            stage("$addFields", Bson::Document(doc(vec![("n", Bson::Int32(2))]))),
            stage("$replaceRoot", Bson::Document(doc(vec![("newRoot", Bson::String(s("$profile")))]))),
            stage("$count", Bson::String(s("total"))),
            doc(vec![("$sample", Bson::Document(doc(vec![("size", Bson::Int32(5))])))]),
        ]
    );
}
