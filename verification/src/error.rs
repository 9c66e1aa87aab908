//! The two ways in which the engine fails.

use vstd::prelude::*;

verus! {

/// A failure of the engine, with a description of its cause.
#[derive(Debug, Clone, PartialEq, Eq)]
pub enum Error {
    /// A value could not be written.
    Serialize(String),
    /// A value could not be read back.
    Deserialize(String),
}

impl Error {
    /// The description of the cause.
    pub fn message(&self) -> (r: &String)
        ensures
            self matches Error::Serialize(s) ==> *r == s,
            self matches Error::Deserialize(s) ==> *r == s,
    {
        match self {
            Error::Serialize(s) => s,
            Error::Deserialize(s) => s,
        }
    }
}

} // verus!
