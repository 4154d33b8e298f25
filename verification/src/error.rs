//! The library's error type.

use vstd::prelude::*;

verus! {

/// A failure surfaced to callers: an I/O problem reported by the surrounding
/// program, or a failed backend command with its captured diagnostic text.
#[derive(Debug)]
pub enum Error {
    Io(String),
    CommandFailed(String),
}

impl Error {
    /// The diagnostic text carried by the error.
    pub fn text(&self) -> (r: &String)
        ensures
            r@ == self.text_spec(),
    {
        match self {
            Error::Io(s) => s,
            Error::CommandFailed(s) => s,
        }
    }

    pub open spec fn text_spec(&self) -> Seq<char> {
        match self {
            Error::Io(s) => s@,
            Error::CommandFailed(s) => s@,
        }
    }
}

} // verus!
