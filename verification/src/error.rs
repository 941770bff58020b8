//! The ways an operation of the service can fail.

use vstd::prelude::*;
use crate::status::{CONFLICT, NOT_FOUND};

verus! {

/// Why an operation was refused.
#[derive(Clone, Copy, Debug, PartialEq, Eq, Structural)]
pub enum Error {
    /// Nothing is stored under the key or id that was asked for.
    NotFound,
    /// Something is already stored under the id that was offered.
    AlreadyExists,
}

impl Error {
    /// The status code a failed user request is answered with.
    pub open spec fn spec_status(&self) -> u16 {
        match self {
            Error::NotFound => NOT_FOUND,
            Error::AlreadyExists => CONFLICT,
        }
    }

    /// The status code a failed user request is answered with.
    #[verifier::when_used_as_spec(spec_status)]
    pub fn status(&self) -> (code: u16)
        ensures
            code == self.spec_status(),
    {
        match self {
            Error::NotFound => NOT_FOUND,
            Error::AlreadyExists => CONFLICT,
        }
    }

    /// The text sent in the `error` field of a failed user request's body.
    pub open spec fn spec_message(&self) -> Seq<char> {
        match self {
            Error::NotFound => "not found"@,
            Error::AlreadyExists => "already exists"@,
        }
    }

    /// The text sent in the `error` field of a failed user request's body.
    pub fn message(&self) -> (text: &'static str)
        ensures
            text@ == self.spec_message(),
    {
        match self {
            Error::NotFound => "not found",
            Error::AlreadyExists => "already exists",
        }
    }
}

} // verus!
