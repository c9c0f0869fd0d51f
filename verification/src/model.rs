//! What the model's database operations decide: id parsing, id filters,
//! timestamps, and how missing results are reported.
use vstd::prelude::*;
use vstd::string::StringExecFns;
use crate::document::{
    doc_get, doc_insert, lemma_get_after_insert, lemma_insert_same, lemma_insert_twice, Bson, BsonSpec,
    DocSpec, Document, ObjectId,
};
use crate::error::MongooseError;

verus! {

/// The value of a hexadecimal digit, or `-1` for any other character.
pub open spec fn hex_digit(c: char) -> int {
    if 48 <= c as u32 <= 57 {
        c as u32 - 48
    } else if 97 <= c as u32 <= 102 {
        c as u32 - 97 + 10
    } else if 65 <= c as u32 <= 70 {
        c as u32 - 65 + 10
    } else {
        -1
    }
}

/// `s` is the 24-digit hexadecimal text of an ObjectId (either case).
pub open spec fn is_object_id_hex(s: Seq<char>) -> bool {
    s.len() == 24 && forall|i: int| 0 <= i < 24 ==> hex_digit(#[trigger] s[i]) >= 0
}

/// The 12 bytes that the hexadecimal text `s` stands for, two digits a byte.
pub open spec fn object_id_bytes(s: Seq<char>) -> Seq<u8> {
    Seq::new(12, |i: int| (hex_digit(s[2 * i]) * 16 + hex_digit(s[2 * i + 1])) as u8)
}

/// The message of the error `ObjectId::parse_str` gives for `s`.
pub uninterp spec fn object_id_parse_error(s: Seq<char>) -> Seq<char>;

/// `bson::oid::ObjectId::parse_str`: succeeds exactly on 24 hexadecimal
/// digits (either case, as `hex::decode` accepts them) and gives the bytes
/// they spell; otherwise its error's message.
#[verifier::external_body]
fn object_id_from_hex(s: &str) -> (r: Result<[u8; 12], String>)
    ensures
        match r {
            Ok(b) => is_object_id_hex(s@) && b@ == object_id_bytes(s@),
            Err(m) => !is_object_id_hex(s@) && m@ == object_id_parse_error(s@),
        },
{
    match bson::oid::ObjectId::parse_str(s) {
        Ok(oid) => Ok(oid.bytes()),
        Err(e) => Err(e.to_string()),
    }
}

/// Parse the hexadecimal text of an ObjectId; anything else is an
/// `InvalidId` error carrying the parser's message.
pub fn parse_oid(s: &str) -> (r: Result<ObjectId, MongooseError>)
    ensures
        match r {
            Ok(oid) => is_object_id_hex(s@) && oid.bytes@ == object_id_bytes(s@),
            Err(e) => !is_object_id_hex(s@) && (e matches MongooseError::InvalidId(m) && m@
                == object_id_parse_error(s@)),
        },
{
    match object_id_from_hex(s) {
        Ok(bytes) => Ok(ObjectId { bytes }),
        Err(m) => Err(MongooseError::InvalidId(m)),
    }
}

/// The filter `{ "_id": id }`.
pub fn id_filter(id: ObjectId) -> (d: Document)
    ensures
        d@ == seq![("_id"@, BsonSpec::ObjectId(id))],
{
    Document::single(String::from_str("_id"), Bson::ObjectId(id))
}

/// The fields a newly created document gets when its schema manages
/// timestamps: `created_at` and `updated_at`, both `now`.
pub fn creation_stamps(now: i64) -> (d: Document)
    ensures
        d@ == seq![
            ("created_at"@, BsonSpec::DateTime(now)),
            ("updated_at"@, BsonSpec::DateTime(now)),
        ],
{
    let mut d = Document::single(String::from_str("created_at"), Bson::DateTime(now));
    proof {
        reveal_strlit("created_at");
        reveal_strlit("updated_at");
        assert(d@[0].0 != "updated_at"@) by {
            assert(d@[0].0[0] != "updated_at"@[0]);
        }
        if crate::document::has_key(d@, "updated_at"@) {
            let i = choose|i: int| 0 <= i < d@.len() && #[trigger] d@[i].0 == "updated_at"@;
            assert(i == 0);
        }
    }
    d.push_new(String::from_str("updated_at"), Bson::DateTime(now));
    proof {
        assert(d@ =~= seq![
            ("created_at"@, BsonSpec::DateTime(now)),
            ("updated_at"@, BsonSpec::DateTime(now)),
        ]);
    }
    d
}

/// The document a create writes: `doc` as the schema serialized it, with
/// `created_at` and `updated_at` set to `now` when the schema manages
/// timestamps; a field of either name that is already there is overwritten
/// where it stands.
pub open spec fn creation_document(doc: DocSpec, timestamps: bool, now: i64) -> DocSpec {
    if timestamps {
        doc_insert(
            doc_insert(doc, "created_at"@, BsonSpec::DateTime(now)),
            "updated_at"@,
            BsonSpec::DateTime(now),
        )
    } else {
        doc
    }
}

/// The document to insert for a create (see `creation_document`).
pub fn document_to_insert(doc: Document, timestamps: bool, now: i64) -> (d: Document)
    ensures
        d@ == creation_document(doc@, timestamps, now),
{
    let mut d = doc;
    if timestamps {
        d.insert(String::from_str("created_at"), Bson::DateTime(now));
        d.insert(String::from_str("updated_at"), Bson::DateTime(now));
    }
    d
}

/// With timestamps on, a created document holds `created_at` and
/// `updated_at` equal to `now`, and every other field as the schema gave it;
/// with them off it is written unchanged.
pub proof fn law_created_document_is_stamped(doc: DocSpec, timestamps: bool, now: i64, k: Seq<char>)
    ensures
        timestamps ==> doc_get(creation_document(doc, timestamps, now), "created_at"@) == Some(
            BsonSpec::DateTime(now),
        ),
        timestamps ==> doc_get(creation_document(doc, timestamps, now), "updated_at"@) == Some(
            BsonSpec::DateTime(now),
        ),
        k != "created_at"@ && k != "updated_at"@ ==> doc_get(creation_document(doc, timestamps, now), k)
            == doc_get(doc, k),
        !timestamps ==> creation_document(doc, timestamps, now) == doc,
{
    let once = doc_insert(doc, "created_at"@, BsonSpec::DateTime(now));
    lemma_get_after_insert(doc, "created_at"@, BsonSpec::DateTime(now), k);
    lemma_get_after_insert(once, "updated_at"@, BsonSpec::DateTime(now), k);
    lemma_get_after_insert(doc, "created_at"@, BsonSpec::DateTime(now), "created_at"@);
    lemma_get_after_insert(once, "updated_at"@, BsonSpec::DateTime(now), "created_at"@);
    lemma_get_after_insert(once, "updated_at"@, BsonSpec::DateTime(now), "updated_at"@);
    reveal_strlit("created_at");
    reveal_strlit("updated_at");
    assert("created_at"@ != "updated_at"@) by {
        assert("created_at"@[0] != "updated_at"@[0]);
    }
}

/// An update after stamping `updated_at` with `now` inside its `$set`: a
/// missing `$set` is added at the end holding only the stamp; a `$set`
/// document gets the stamp set; a `$set` that is not a document is left as
/// it is.
pub open spec fn stamp_update(u: DocSpec, now: i64) -> DocSpec {
    match doc_get(u, "$set"@) {
        None => doc_insert(
            u,
            "$set"@,
            BsonSpec::Document(seq![("updated_at"@, BsonSpec::DateTime(now))]),
        ),
        Some(BsonSpec::Document(d)) => doc_insert(
            u,
            "$set"@,
            BsonSpec::Document(doc_insert(d, "updated_at"@, BsonSpec::DateTime(now))),
        ),
        Some(_) => u,
    }
}

/// Stamping an update whose `$set` is missing or a document leaves it with a
/// `$set` document whose `updated_at` is `now`, and changes no other
/// top-level entry.
pub proof fn law_update_is_stamped(u: DocSpec, now: i64, k: Seq<char>)
    requires
        doc_get(u, "$set"@) is None || doc_get(u, "$set"@)->0 is Document,
    ensures
        doc_get(stamp_update(u, now), "$set"@) is Some,
        doc_get(stamp_update(u, now), "$set"@)->0 is Document,
        doc_get(doc_get(stamp_update(u, now), "$set"@)->0->Document_0, "updated_at"@) == Some(
            BsonSpec::DateTime(now),
        ),
        k != "$set"@ ==> doc_get(stamp_update(u, now), k) == doc_get(u, k),
{
    match doc_get(u, "$set"@) {
        None => {
            let d = seq![("updated_at"@, BsonSpec::DateTime(now))];
            lemma_get_after_insert(u, "$set"@, BsonSpec::Document(d), k);
            lemma_get_after_insert(Seq::empty(), "updated_at"@, BsonSpec::DateTime(now), "updated_at"@);
            assert(doc_insert(Seq::empty(), "updated_at"@, BsonSpec::DateTime(now)) =~= d);
        },
        Some(BsonSpec::Document(d0)) => {
            let d = doc_insert(d0, "updated_at"@, BsonSpec::DateTime(now));
            lemma_get_after_insert(u, "$set"@, BsonSpec::Document(d), k);
            lemma_get_after_insert(d0, "updated_at"@, BsonSpec::DateTime(now), "updated_at"@);
        },
        Some(_) => {},
    }
}

/// Stamping never loses a field the update sets: when `$set` is a document,
/// the stamped `$set` reads every key other than `updated_at` exactly as
/// before; when `$set` is missing, the added `$set` holds nothing but the
/// stamp; a `$set` that is not a document is left as it is.
pub proof fn law_stamp_keeps_set_fields(u: DocSpec, now: i64, k: Seq<char>)
    ensures
        doc_get(u, "$set"@) matches Some(BsonSpec::Document(d)) ==> (doc_get(
            stamp_update(u, now),
            "$set"@,
        ) matches Some(BsonSpec::Document(d2)) && (k != "updated_at"@ ==> doc_get(d2, k) == doc_get(
            d,
            k,
        ))),
        doc_get(u, "$set"@) is None ==> (doc_get(stamp_update(u, now), "$set"@) matches Some(
            BsonSpec::Document(d2),
        ) && (k != "updated_at"@ ==> doc_get(d2, k) is None)),
        doc_get(u, "$set"@) matches Some(x) && x !is Document ==> stamp_update(u, now) == u,
{
    match doc_get(u, "$set"@) {
        None => {
            let d = seq![("updated_at"@, BsonSpec::DateTime(now))];
            lemma_get_after_insert(u, "$set"@, BsonSpec::Document(d), "$set"@);
            lemma_get_after_insert(Seq::empty(), "updated_at"@, BsonSpec::DateTime(now), k);
            assert(doc_insert(Seq::empty(), "updated_at"@, BsonSpec::DateTime(now)) =~= d);
            assert(!crate::document::has_key(Seq::<(Seq<char>, BsonSpec)>::empty(), k));
        },
        Some(BsonSpec::Document(d0)) => {
            let d = doc_insert(d0, "updated_at"@, BsonSpec::DateTime(now));
            lemma_get_after_insert(u, "$set"@, BsonSpec::Document(d), "$set"@);
            lemma_get_after_insert(d0, "updated_at"@, BsonSpec::DateTime(now), k);
        },
        Some(_) => {},
    }
}

/// Stamp `updated_at` with `now` inside the update's `$set`.
pub fn stamp_updated(update: Document, now: i64) -> (d: Document)
    ensures
        d@ == stamp_update(update@, now),
{
    let ghost u = update@;
    let mut update = update;
    let key = String::from_str("$set");
    let previous = update.insert(key.clone(), Bson::Null);
    match previous {
        None => {
            let stamp = Document::single(String::from_str("updated_at"), Bson::DateTime(now));
            let ghost sv = stamp@;
            update.insert(key, Bson::Document(stamp));
            proof {
                lemma_insert_twice(u, "$set"@, BsonSpec::Null, BsonSpec::Document(sv));
            }
        },
        Some(Bson::Document(set)) => {
            let mut set = set;
            set.insert(String::from_str("updated_at"), Bson::DateTime(now));
            let ghost sv = set@;
            update.insert(key, Bson::Document(set));
            proof {
                lemma_insert_twice(u, "$set"@, BsonSpec::Null, BsonSpec::Document(sv));
            }
        },
        Some(other) => {
            let ghost ov = other.deep();
            update.insert(key, other);
            proof {
                lemma_insert_twice(u, "$set"@, BsonSpec::Null, ov);
                lemma_insert_same(u, "$set"@, ov);
                assert(ov !is Document);
            }
        },
    }
    update
}

/// The id MongoDB reported for an inserted document; a missing one is a
/// `Serialization` error.
pub fn require_inserted_id(id: Option<ObjectId>) -> (r: Result<ObjectId, MongooseError>)
    ensures
        match id {
            Some(o) => r == Ok::<ObjectId, MongooseError>(o),
            None => r matches Err(MongooseError::Serialization(m)) && m@ == "No ObjectId returned"@,
        },
{
    match id {
        Some(o) => Ok(o),
        None => Err(MongooseError::Serialization(String::from_str("No ObjectId returned"))),
    }
}

/// A document that must exist; a missing one is `NotFound`.
pub fn require_found<T>(found: Option<T>) -> (r: Result<T, MongooseError>)
    ensures
        match found {
            Some(d) => r matches Ok(x) && x == d,
            None => r matches Err(MongooseError::NotFound),
        },
{
    match found {
        Some(d) => Ok(d),
        None => Err(MongooseError::NotFound),
    }
}

} // verus!
