//! A custom error carrier for failure cases that no other error kind covers.

use vstd::prelude::*;

verus! {

/// A free-form failure message.
#[derive(Debug)]
pub struct CustomError {
    message: String,
}

impl CustomError {
    /// The wrapped message, as contracts speak of it.
    pub closed spec fn spec_message(&self) -> Seq<char> {
        self.message@
    }

    /// Wraps a message in a `CustomError`.
    pub fn new(message: &str) -> (e: CustomError)
        ensures
            e.spec_message() == message@,
    {
        CustomError { message: message.to_owned() }
    }

    /// The wrapped message.
    pub fn message(&self) -> (m: &String)
        ensures
            m@ == self.spec_message(),
    {
        &self.message
    }
}

} // verus!
