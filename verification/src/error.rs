//! The library's error type.
use vstd::prelude::*;

verus! {

/// The error raised by the MongoDB driver, carried through unchanged.
#[verifier::external_type_specification]
#[verifier::external_body]
pub struct ExDriverError(mongodb::error::Error);

/// Everything that can go wrong in the library.
#[derive(Debug)]
pub enum MongooseError {
    /// The MongoDB driver failed.
    Driver(mongodb::error::Error),
    /// A document did not pass validation, or the library was misused.
    Validation(String),
    /// No document matched.
    NotFound,
    /// A value could not be converted to or from BSON.
    Serialization(String),
    /// A string is not a valid ObjectId.
    InvalidId(String),
}

} // verus!
