//! Errors of a serializer for a structured text format.

use vstd::prelude::*;

verus! {

/// A message made by a data structure, or one of the failures that the
/// format itself knows.
#[derive(Clone, Debug, PartialEq)]
pub enum Error {
    Message(String),
    Eof,
    Syntax,
    ExpectedBoolean,
    ExpectedInteger,
    ExpectedString,
    ExpectedNull,
    ExpectedArray,
    ExpectedArrayComma,
    ExpectedArrayEnd,
    ExpectedMap,
    ExpectedMapColon,
    ExpectedMapComma,
    ExpectedMapEnd,
    ExpectedEnum,
    TrailingCharacters,
}

impl Error {
    /// The text shown for this error.
    pub open spec fn text(self) -> Seq<char> {
        match self {
            Error::Message(msg) => msg@,
            Error::Eof => "unexpected end of input"@,
            Error::Syntax => "incorrect syntax"@,
            Error::ExpectedBoolean => "incorrect input: expected boolean"@,
            Error::ExpectedInteger => "incorrect input: expected integer"@,
            Error::ExpectedString => "incorrect input: expected string"@,
            Error::ExpectedNull => "incorrect input: expected null"@,
            Error::ExpectedArray => "incorrect input: expected array"@,
            Error::ExpectedArrayComma => "incorrect input: expected array comma"@,
            Error::ExpectedArrayEnd => "incorrect input: expected array end"@,
            Error::ExpectedMap => "incorrect input: expected map"@,
            Error::ExpectedMapColon => "incorrect input: expected map colon"@,
            Error::ExpectedMapComma => "incorrect input: expected map comma"@,
            Error::ExpectedMapEnd => "incorrect input: expected map end"@,
            Error::ExpectedEnum => "incorrect input: expected enum"@,
            Error::TrailingCharacters => "incorrect input: unexpected trailing characters"@,
        }
    }

    /// An error that carries `msg`.
    pub fn custom(msg: &str) -> (e: Error)
        ensures
            e is Message,
            e->Message_0@ == msg@,
    {
        Error::Message(msg.to_owned())
    }

    /// Renders the error as text.
    pub fn message(&self) -> (s: String)
        ensures
            s@ == self.text(),
    {
        match self {
            Error::Message(msg) => msg.clone(),
            Error::Eof => "unexpected end of input".to_owned(),
            Error::Syntax => "incorrect syntax".to_owned(),
            Error::ExpectedBoolean => "incorrect input: expected boolean".to_owned(),
            Error::ExpectedInteger => "incorrect input: expected integer".to_owned(),
            Error::ExpectedString => "incorrect input: expected string".to_owned(),
            Error::ExpectedNull => "incorrect input: expected null".to_owned(),
            Error::ExpectedArray => "incorrect input: expected array".to_owned(),
            Error::ExpectedArrayComma => "incorrect input: expected array comma".to_owned(),
            Error::ExpectedArrayEnd => "incorrect input: expected array end".to_owned(),
            Error::ExpectedMap => "incorrect input: expected map".to_owned(),
            Error::ExpectedMapColon => "incorrect input: expected map colon".to_owned(),
            Error::ExpectedMapComma => "incorrect input: expected map comma".to_owned(),
            Error::ExpectedMapEnd => "incorrect input: expected map end".to_owned(),
            Error::ExpectedEnum => "incorrect input: expected enum".to_owned(),
            Error::TrailingCharacters => "incorrect input: unexpected trailing characters".to_owned(),
        }
    }
}

} // verus!
