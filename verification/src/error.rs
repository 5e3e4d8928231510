//! Failures: what the storage reports, what a request ends in, and the typed
//! outcome of adding a book to an author that does not exist.

use vstd::prelude::*;
use vstd::std_specs::convert::FromSpecImpl;

verus! {

/// A statement that the storage refused or could not carry out.
#[derive(Debug, PartialEq, Eq)]
pub struct DBError {
    pub message: String,
}

impl DBError {
    /// Wraps the storage's own message, unchanged.
    pub fn new(message: String) -> (e: DBError)
        ensures
            e.message == message,
    {
        DBError { message }
    }
}

/// What went wrong with a request.
#[derive(Clone, Copy, Debug, PartialEq, Eq, Structural)]
pub enum ErrorKind {
    /// No connection to the storage could be had.
    Connection,
    /// The storage refused or failed a statement.
    Database,
    /// An identifier that is not the text of a key.
    MalformedId,
    /// A book whose author cannot be found.
    AuthorNotFound,
}

/// A request that failed as a whole. The message is the one the failing
/// layer gave, passed on as it is.
#[derive(Debug, PartialEq, Eq)]
pub struct Error {
    pub kind: ErrorKind,
    pub message: String,
}

/// An `Error` as a mathematical value.
pub struct Failure {
    pub kind: ErrorKind,
    pub message: Seq<char>,
}

impl View for Error {
    type V = Failure;

    open spec fn view(&self) -> Failure {
        Failure { kind: self.kind, message: self.message@ }
    }
}

impl DeepView for Error {
    type V = Failure;

    open spec fn deep_view(&self) -> Failure {
        self@
    }
}

/// A result as a mathematical value: what it holds, taken by its view.
pub open spec fn outcome<T: DeepView, E: DeepView>(r: Result<T, E>) -> Result<T::V, E::V> {
    match r {
        Ok(value) => Ok(value.deep_view()),
        Err(e) => Err(e.deep_view()),
    }
}

/// What is said of a book that no author owns.
pub const ORPHAN: &'static str = "the book has no author";

impl Failure {
    /// The failure that a storage error becomes.
    pub open spec fn database(message: Seq<char>) -> Failure {
        Failure { kind: ErrorKind::Database, message }
    }

    /// The failure of an identifier that is no key.
    pub open spec fn malformed_id(message: Seq<char>) -> Failure {
        Failure { kind: ErrorKind::MalformedId, message }
    }

    /// The failure of a book that no author owns.
    pub open spec fn orphan() -> Failure {
        Failure { kind: ErrorKind::AuthorNotFound, message: ORPHAN@ }
    }
}

impl Error {
    /// The failure to acquire a connection, with the pool's message.
    pub fn connection(message: String) -> (e: Error)
        ensures
            e.kind == ErrorKind::Connection,
            e.message == message,
    {
        Error { kind: ErrorKind::Connection, message }
    }

    /// The failure to read an identifier, with the parser's message.
    pub fn malformed_id(message: String) -> (e: Error)
        ensures
            e.kind == ErrorKind::MalformedId,
            e.message == message,
    {
        Error { kind: ErrorKind::MalformedId, message }
    }

    /// The failure to find the author that a book belongs to.
    pub fn orphan() -> (e: Error)
        ensures
            e@ == Failure::orphan(),
    {
        Error { kind: ErrorKind::AuthorNotFound, message: ORPHAN.to_owned() }
    }
}

impl From<DBError> for Error {
    /// A storage error fails the request, under the storage's own message.
    fn from(value: DBError) -> (e: Error) {
        Error { kind: ErrorKind::Database, message: value.message }
    }
}

impl FromSpecImpl<DBError> for Error {
    open spec fn obeys_from_spec() -> bool {
        true
    }

    open spec fn from_spec(value: DBError) -> Error {
        Error { kind: ErrorKind::Database, message: value.message }
    }
}

/// The outcome of adding a book to an author that does not exist. `id` is
/// the token of the key that was asked for.
#[derive(Debug, PartialEq, Eq)]
pub struct AuthorNotFoundError {
    pub id: String,
}

} // verus!
