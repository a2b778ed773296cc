//! The errors of a command.

use vstd::prelude::*;
use vstd::std_specs::convert::FromSpecImpl;
use vstd::string::to_string_from_display_ensures;

verus! {

/// The error of the standard library's input and output. It is carried, and
/// shown by its own text.
#[verifier::external_type_specification]
#[verifier::external_body]
pub struct ExIoError(std::io::Error);

/// The error of the tantivy index. It is carried, and shown by its own text.
#[verifier::external_type_specification]
#[verifier::external_body]
pub struct ExTantivyError(tantivy::TantivyError);

/// What can go wrong in a command.
#[derive(Debug)]
pub enum Error {
    /// A route names something that is neither a known airport nor a
    /// coordinate pair.
    UnknownIdentifier(String),
    /// Reading a dataset or preparing the store's directory failed.
    IO(std::io::Error),
    /// The index could not be opened, built or searched.
    Tantivy(tantivy::TantivyError),
}

impl Error {
    /// The error for a token that names nothing.
    pub fn from_identifier(ident: &str) -> (error: Self)
        ensures
            error matches Error::UnknownIdentifier(name) && name@ == ident@,
    {
        Error::UnknownIdentifier(String::from_str(ident))
    }

    /// The text that tells a user of the error: for a token that names
    /// nothing, a fixed lead and the token; for the others their own text.
    pub fn message(&self) -> (text: String)
        ensures
            match *self {
                Error::UnknownIdentifier(name) => text@ == "unknown identifier: "@ + name@,
                Error::IO(inner) => to_string_from_display_ensures(&inner, text),
                Error::Tantivy(inner) => to_string_from_display_ensures(&inner, text),
            },
    {
        match self {
            Error::UnknownIdentifier(name) => {
                let mut text = String::from_str("unknown identifier: ");
                text.append(name.as_str());
                text
            },
            Error::IO(inner) => inner.to_string(),
            Error::Tantivy(inner) => inner.to_string(),
        }
    }
}

impl From<std::io::Error> for Error {
    fn from(v: std::io::Error) -> (error: Self) {
        Error::IO(v)
    }
}

impl FromSpecImpl<std::io::Error> for Error {
    open spec fn obeys_from_spec() -> bool {
        true
    }

    open spec fn from_spec(v: std::io::Error) -> Self {
        Error::IO(v)
    }
}

impl From<tantivy::TantivyError> for Error {
    fn from(v: tantivy::TantivyError) -> (error: Self) {
        Error::Tantivy(v)
    }
}

impl FromSpecImpl<tantivy::TantivyError> for Error {
    open spec fn obeys_from_spec() -> bool {
        true
    }

    open spec fn from_spec(v: tantivy::TantivyError) -> Self {
        Error::Tantivy(v)
    }
}

} // verus!
