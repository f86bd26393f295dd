//! A plain error type carrying a human-readable message.

use vstd::prelude::*;

verus! {

/// An error described only by its message text.
#[derive(Debug)]
pub struct CustomError {
    message: String,
}

impl View for CustomError {
    type V = Seq<char>;

    closed spec fn view(&self) -> Seq<char> {
        self.message@
    }
}

impl CustomError {
    /// Wraps a message in an error value.
    pub fn new(message: String) -> (r: Self)
        ensures
            r@ == message@,
    {
        Self { message }
    }

    /// The message the error was created with.
    pub fn message(&self) -> (r: &String)
        ensures
            r@ == self@,
    {
        &self.message
    }
}

} // verus!
