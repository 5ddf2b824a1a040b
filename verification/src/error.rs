//! The failures an operation of the tracker can report.

use vstd::prelude::*;

verus! {

/// Why an operation on a sandbox or a container did not apply.
#[derive(Debug, PartialEq, Eq)]
pub enum Error {
    /// No sandbox or container of this id is present.
    NotFound(String),
    /// A sandbox or container of this id is present already.
    AlreadyExists(String),
}

impl Error {
    /// The id that the failure is about.
    pub open spec fn id(&self) -> Seq<char> {
        match self {
            Error::NotFound(id) => id@,
            Error::AlreadyExists(id) => id@,
        }
    }

    /// A failure that says `id` is absent.
    pub fn not_found(id: &str) -> (e: Error)
        ensures
            e is NotFound,
            e.id() == id@,
    {
        Error::NotFound(id.to_owned())
    }

    /// A failure that says `id` is taken.
    pub fn already_exists(id: &str) -> (e: Error)
        ensures
            e is AlreadyExists,
            e.id() == id@,
    {
        Error::AlreadyExists(id.to_owned())
    }

    /// Whether this failure reports an absent id.
    pub fn is_not_found(&self) -> (b: bool)
        ensures
            b == (self is NotFound),
    {
        match self {
            Error::NotFound(_) => true,
            Error::AlreadyExists(_) => false,
        }
    }

    /// Whether this failure reports an id that is taken.
    pub fn is_already_exists(&self) -> (b: bool)
        ensures
            b == (self is AlreadyExists),
    {
        match self {
            Error::NotFound(_) => false,
            Error::AlreadyExists(_) => true,
        }
    }

    /// The id that the failure is about.
    pub fn subject(&self) -> (id: &String)
        ensures
            id@ == self.id(),
    {
        match self {
            Error::NotFound(id) => id,
            Error::AlreadyExists(id) => id,
        }
    }
}

/// The result is the failure that says `id` is absent.
pub open spec fn is_not_found<T>(result: Result<T, Error>, id: Seq<char>) -> bool {
    result matches Err(Error::NotFound(subject)) && subject@ == id
}

/// The result is the failure that says `id` is taken.
pub open spec fn is_already_exists<T>(result: Result<T, Error>, id: Seq<char>) -> bool {
    result matches Err(Error::AlreadyExists(subject)) && subject@ == id
}

} // verus!
