//! The error type of the library.

use vstd::prelude::*;
use vstd::string::StringExecFns;

verus! {

/// The ways in which an operation of this library can fail.
#[derive(Clone, Copy, Debug, PartialEq, Eq, Structural)]
pub enum ErrorKind {
    /// A path that had to exist does not.
    NotFound,
    /// The target exists and may not be replaced.
    AlreadyExists,
    /// A path that had to be a directory is something else.
    InvalidFolder,
    /// A path that had to be a regular file is something else.
    InvalidFile,
    /// A path has no final component to name the target after.
    InvalidFileName,
    /// A path is not valid Unicode.
    InvalidPath,
    /// A block reaches past the end of the file that it edits.
    OutOfBounds,
    /// None of the above.
    Other,
}

/// An error: its kind, and a message for the user.
#[derive(Debug)]
pub struct Error {
    /// What went wrong.
    pub kind: ErrorKind,
    /// What the user is told.
    pub message: String,
}

impl Error {
    /// An error of the given kind with the given message.
    pub fn new(kind: ErrorKind, message: &str) -> (error: Error)
        ensures
            error.kind == kind,
            error.message@ == message@,
    {
        Error { kind, message: String::from_str(message) }
    }

    /// An error of the given kind whose message names a path: `before`,
    /// the path, `after`.
    pub fn about(kind: ErrorKind, before: &str, path: &str, after: &str) -> (error: Error)
        ensures
            error.kind == kind,
            error.message@ == before@ + path@ + after@,
    {
        let mut message = String::from_str(before);
        message.append(path);
        message.append(after);
        Error { kind, message }
    }

    /// An error of the given kind about the path whose text is `path`. The
    /// message is `before`, the path, `after`; for a path that is not valid
    /// Unicode it is `plain`.
    pub fn about_path(
        kind: ErrorKind,
        path: &Option<String>,
        before: &str,
        after: &str,
        plain: &str,
    ) -> (error: Error)
        ensures
            error.says((kind, naming(*path, before@, after@, plain@))),
    {
        match path {
            Some(text) => Error::about(kind, before, text.as_str(), after),
            None => Error::new(kind, plain),
        }
    }

    /// The message of the error.
    pub fn to_string(&self) -> (text: String)
        ensures
            text@ == self.message@,
    {
        self.message.clone()
    }

    /// The error is of the given kind and has the given message.
    pub open spec fn says(&self, expected: (ErrorKind, Seq<char>)) -> bool {
        self.kind == expected.0 && self.message@ == expected.1
    }
}

/// A message about the path whose text is `path`: `before`, the path,
/// `after`; for a path that is not valid Unicode, `plain`.
pub open spec fn naming(
    path: Option<String>,
    before: Seq<char>,
    after: Seq<char>,
    plain: Seq<char>,
) -> Seq<char> {
    match path {
        Some(text) => before + text@ + after,
        None => plain,
    }
}

/// What a function returned is what was expected of it: the same value, or
/// an error of the same kind with the same message.
pub open spec fn same<T>(
    got: Result<T, Error>,
    expected: Result<T, (ErrorKind, Seq<char>)>,
) -> bool {
    match (got, expected) {
        (Ok(value), Ok(wanted)) => value == wanted,
        (Err(error), Err(wanted)) => error.says(wanted),
        _ => false,
    }
}

} // verus!
