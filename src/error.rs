//! The failure values of the library.
use vstd::prelude::*;

verus! {

/// A failure, surfaced to the caller as one value with a human-readable message.
#[derive(Debug, Clone, PartialEq, Eq)]
pub enum Error {
    /// The backend could not be reached or refused the credentials.
    Connection(String),
    /// The backend rejected the query or command.
    Driver(String),
    /// A grammar could not tokenize its input; the message holds the offending text.
    Parse(String),
    /// A required grammar field was empty or not numeric.
    Validation(String),
    /// A recognized request that this backend or this build does not carry out.
    Unsupported(String),
    /// Row and column counts disagree.
    Shape(String),
    /// A configuration code that names nothing.
    Config(String),
    /// The destination could not be created or written.
    Io(String),
}

impl Error {
    /// The message carried by the error.
    pub open spec fn msg(&self) -> Seq<char> {
        match self {
            Error::Connection(m) => m@,
            Error::Driver(m) => m@,
            Error::Parse(m) => m@,
            Error::Validation(m) => m@,
            Error::Unsupported(m) => m@,
            Error::Shape(m) => m@,
            Error::Config(m) => m@,
            Error::Io(m) => m@,
        }
    }

    /// The message carried by the error.
    pub fn message(&self) -> (r: String)
        ensures
            r@ == self.msg(),
    {
        match self {
            Error::Connection(m) => m.clone(),
            Error::Driver(m) => m.clone(),
            Error::Parse(m) => m.clone(),
            Error::Validation(m) => m.clone(),
            Error::Unsupported(m) => m.clone(),
            Error::Shape(m) => m.clone(),
            Error::Config(m) => m.clone(),
            Error::Io(m) => m.clone(),
        }
    }
}

} // verus!
