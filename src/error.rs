//! The error that request handlers answer with: a message and whether the
//! client or the server is at fault.

use vstd::prelude::*;

verus! {

/// Whose fault an error is.
#[derive(Clone, Copy, Debug, PartialEq, Eq, Structural)]
pub enum ErrorKind {
    Internal,
    BadRequest,
}

/// An error with its message.
#[derive(Debug)]
pub struct Error {
    message: String,
    kind: ErrorKind,
}

/// What an [`Error`] holds, as a mathematical value.
pub struct ErrorModel {
    pub message: Seq<char>,
    pub kind: ErrorKind,
}

impl View for Error {
    type V = ErrorModel;

    closed spec fn view(&self) -> ErrorModel {
        ErrorModel { message: self.message@, kind: self.kind }
    }
}

/// The HTTP status for an error of this kind.
pub open spec fn status_of(kind: ErrorKind) -> u16 {
    match kind {
        ErrorKind::Internal => 500,
        ErrorKind::BadRequest => 400,
    }
}

impl Error {
    pub fn new(message: String, kind: ErrorKind) -> (r: Error)
        ensures
            r@ == (ErrorModel { message: message@, kind }),
    {
        Error { message, kind }
    }

    pub fn kind(&self) -> (r: ErrorKind)
        ensures
            r == self@.kind,
    {
        self.kind
    }

    pub fn message(&self) -> (r: &String)
        ensures
            r@ == self@.message,
    {
        &self.message
    }

    /// The HTTP status of the answer: 500 for an internal error, 400 for a
    /// bad request.
    pub fn status_code(&self) -> (r: u16)
        ensures
            r == status_of(self@.kind),
    {
        match self.kind {
            ErrorKind::Internal => 500,
            ErrorKind::BadRequest => 400,
        }
    }

    /// The message that the answer carries: a bad request's own message; an
    /// internal error shows none of its detail.
    pub fn response_message(&self) -> (r: Option<String>)
        ensures
            match self@.kind {
                ErrorKind::Internal => r is None,
                ErrorKind::BadRequest => r matches Some(m) && m@ == self@.message,
            },
    {
        match self.kind {
            ErrorKind::Internal => None,
            ErrorKind::BadRequest => Some(self.message.clone()),
        }
    }

    /// The text of the error: `server error: ` and its message.
    pub fn to_string(&self) -> (r: String)
        ensures
            r@ == "server error: "@ + self@.message,
    {
        "server error: ".to_owned().concat(self.message.as_str())
    }
}

} // verus!
