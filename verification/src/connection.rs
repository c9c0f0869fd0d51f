//! The process-wide database handle: what connecting and looking it up decide.
use vstd::prelude::*;
use vstd::string::StringExecFns;
use crate::error::MongooseError;

verus! {

/// Entry point for the process-wide database connection.
pub struct Mongrel;

impl Mongrel {
    /// The outcome of storing a new handle in the process-wide slot: storing
    /// it fails when a handle is already there (`stored` is `Err`).
    pub fn check_stored<D>(stored: Result<(), D>) -> (r: Result<(), MongooseError>)
        ensures
            match stored {
                Ok(_) => r is Ok,
                Err(_) => r matches Err(MongooseError::Validation(m)) && m@ == "Already connected"@,
            },
    {
        match stored {
            Ok(()) => Ok(()),
            Err(_) => Err(MongooseError::Validation(String::from_str("Already connected"))),
        }
    }

    /// The process-wide handle, which must have been stored by connecting first.
    pub fn require_connected<D>(handle: Option<D>) -> (r: Result<D, MongooseError>)
        ensures
            match handle {
                Some(d) => r matches Ok(x) && x == d,
                None => r matches Err(MongooseError::Validation(m)) && m@
                    == "Not connected. Call Mongoose::connect() first."@,
            },
    {
        match handle {
            Some(d) => Ok(d),
            None => Err(
                MongooseError::Validation(
                    String::from_str("Not connected. Call Mongoose::connect() first."),
                ),
            ),
        }
    }
}

} // verus!
