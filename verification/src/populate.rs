//! Typed references to documents of another collection.
use vstd::prelude::*;
use crate::document::{BsonSpec, Document, ObjectId};
use crate::error::MongooseError;
use crate::model::id_filter;

verus! {

/// A reference to a document of another collection: only its id, or the
/// document itself once loaded.
#[derive(Debug, Clone)]
pub enum Ref<T> {
    /// The document has not been loaded; only its ObjectId is known.
    Id(ObjectId),
    /// The document has been loaded.
    Populated(Box<T>),
}

impl<T> Ref<T> {
    /// The ObjectId of an unloaded reference.
    pub fn id(&self) -> (r: Option<&ObjectId>)
        ensures
            match *self {
                Ref::Id(i) => r matches Some(x) && *x == i,
                Ref::Populated(_) => r is None,
            },
    {
        match self {
            Ref::Id(id) => Some(id),
            Ref::Populated(_) => None,
        }
    }

    /// The loaded document.
    pub fn populated(&self) -> (r: Option<&T>)
        ensures
            match *self {
                Ref::Populated(d) => r matches Some(x) && *x == *d,
                Ref::Id(_) => r is None,
            },
    {
        match self {
            Ref::Populated(doc) => Some(doc),
            Ref::Id(_) => None,
        }
    }

    /// Whether the document has been loaded.
    pub fn is_populated(&self) -> (b: bool)
        ensures
            b == (*self is Populated),
    {
        match self {
            Ref::Populated(_) => true,
            Ref::Id(_) => false,
        }
    }

    /// The filter that finds the referenced document, for an unloaded
    /// reference: `{ "_id": id }`.
    pub fn lookup_filter(&self) -> (f: Option<Document>)
        ensures
            match *self {
                Ref::Id(i) => f matches Some(d) && d@ == seq![("_id"@, BsonSpec::ObjectId(i))],
                Ref::Populated(_) => f is None,
            },
    {
        match self {
            Ref::Id(id) => Some(id_filter(*id)),
            Ref::Populated(_) => None,
        }
    }
}

/// Finish resolving `r` with what the lookup of its id found: a loaded
/// reference stays as it is; an unloaded one becomes the found document, or
/// `NotFound` when there is none.
pub fn complete_ref<T>(r: Ref<T>, found: Option<T>) -> (res: Result<Ref<T>, MongooseError>)
    ensures
        match r {
            Ref::Populated(_) => res matches Ok(x) && x == r,
            Ref::Id(_) => match found {
                Some(d) => res matches Ok(Ref::Populated(x)) && *x == d,
                None => res matches Err(MongooseError::NotFound),
            },
        },
{
    match r {
        Ref::Populated(_) => Ok(r),
        Ref::Id(_) => match found {
            Some(d) => Ok(Ref::Populated(Box::new(d))),
            None => Err(MongooseError::NotFound),
        },
    }
}

} // verus!
