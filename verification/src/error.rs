//! Errors of the translator.

use vstd::prelude::*;

verus! {

/// What went wrong, with a message for the user.
#[derive(Debug)]
pub enum Error {
    /// The input (source text or project data) has the wrong shape.
    Parse(String),
    /// A construct is used with the wrong arguments.
    SyntaxError(String),
    /// A name refers to nothing (such as an unknown sound).
    Semantic(String),
    /// Producing the project failed.
    Codegen(String),
    /// Packing the project archive failed.
    Pack(String),
    /// A construct has no Entry block.
    UnmappedBlock(String),
}

/// The kind of an error, without its message.
#[derive(Debug, Clone, Copy, PartialEq, Eq, Structural)]
pub enum ErrorKind {
    Parse,
    Syntax,
    Semantic,
    Codegen,
    Pack,
    Unmapped,
}

impl Error {
    pub open spec fn kind(&self) -> ErrorKind {
        match self {
            Error::Parse(_) => ErrorKind::Parse,
            Error::SyntaxError(_) => ErrorKind::Syntax,
            Error::Semantic(_) => ErrorKind::Semantic,
            Error::Codegen(_) => ErrorKind::Codegen,
            Error::Pack(_) => ErrorKind::Pack,
            Error::UnmappedBlock(_) => ErrorKind::Unmapped,
        }
    }

    /// Model of the message of the error.
    pub open spec fn text(&self) -> Seq<char> {
        match self {
            Error::Parse(m) => m@,
            Error::SyntaxError(m) => m@,
            Error::Semantic(m) => m@,
            Error::Codegen(m) => m@,
            Error::Pack(m) => m@,
            Error::UnmappedBlock(m) => m@,
        }
    }

    /// The message of the error.
    pub fn message(&self) -> (r: &String)
        ensures
            r@ == self.text(),
    {
        match self {
            Error::Parse(m) => m,
            Error::SyntaxError(m) => m,
            Error::Semantic(m) => m,
            Error::Codegen(m) => m,
            Error::Pack(m) => m,
            Error::UnmappedBlock(m) => m,
        }
    }
}

/// Result of the translator's operations.
pub type Result<T> = core::result::Result<T, Error>;

} // verus!
