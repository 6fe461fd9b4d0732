//! The errors that the library reports.

use vstd::prelude::*;

verus! {

/// What can go wrong while a command is read.
#[derive(Debug, Clone, PartialEq, Eq)]
pub enum ParsingCommandError {
    /// The command needs more arguments than were given.
    TooFewArguments,
    /// No command has this name.
    CommandNotRecognized(String),
    /// The command takes fewer arguments than were given.
    TooManyArguments,
    /// No quiz has this label, or the quiz has no category.
    QuizNotFound(String),
}

/// What can go wrong in the library or in the collaborators that it directs.
#[derive(Debug, Clone, PartialEq, Eq)]
pub enum Error {
    /// Reading input failed; the text says how.
    IO(String),
    /// The command could not be read.
    CLIParsing(ParsingCommandError),
    /// The store failed; the text says how.
    DatabaseError(String),
    /// An argument is not acceptable; the text says why.
    InvalidInput(String),
    /// A category with this label exists already.
    CategoryAlreadyExists(String),
    /// A choice with this label exists already in its category.
    ChoiceAlreadyExists(String),
    /// A quiz with this label exists already.
    QuizAlreadyExists(String),
}

/// What can go wrong while a value is looked up in a JSON object.
#[derive(Debug, Clone, PartialEq, Eq)]
pub enum JSONParsingError {
    /// The object has no member with this key.
    KeyNotFound(String),
    /// The value is no object, or the member with this key has another type
    /// than was asked for.
    UnexpectedTypeForKey(String),
}

impl From<ParsingCommandError> for Error {
    fn from(value: ParsingCommandError) -> (error: Error) {
        Error::CLIParsing(value)
    }
}

impl vstd::std_specs::convert::FromSpecImpl<ParsingCommandError> for Error {
    open spec fn obeys_from_spec() -> bool {
        true
    }

    open spec fn from_spec(value: ParsingCommandError) -> Error {
        Error::CLIParsing(value)
    }
}

} // verus!
