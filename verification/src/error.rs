use vstd::prelude::*;

verus! {

/// The error with which a contract procedure answers a refused request.
#[derive(Debug, PartialEq, Eq)]
pub enum Error {
    /// A refusal described by a message.
    Message(String),
}

impl View for Error {
    type V = Seq<char>;

    /// The message of the error.
    open spec fn view(&self) -> Seq<char> {
        match self {
            Error::Message(m) => m@,
        }
    }
}

impl Error {
    /// An error with the given message.
    pub fn new(message: &str) -> (e: Error)
        ensures
            e@ == message@,
    {
        Error::Message(message.to_owned())
    }

    /// The message of the error, as text.
    pub fn message(&self) -> (r: String)
        ensures
            r@ == self@,
    {
        match self {
            Error::Message(m) => m.clone(),
        }
    }
}

} // verus!
