//! Typed failures surfaced by the facade.
//!
//! Every public operation either returns a value or one of these error
//! kinds; no collaborator-internal error type crosses the boundary
//! unwrapped.

use vstd::prelude::*;

verus! {

/// The origin of a failure, by the operation family that produced it.
#[derive(Clone, Copy, Debug, PartialEq, Eq, Structural)]
pub enum ErrorKind {
    /// Executor or worker-pool construction failed; the node cannot start.
    RuntimeInit,
    /// Storage open, working directory, bind or spawn failure while
    /// bringing the node up; no node handle is returned.
    NodeCreate,
    /// A document operation (get, set, share, import, stats) failed.
    Doc,
    /// A ticket's text form could not be parsed.
    DocTicketParse,
    /// Creating a writer identity failed.
    Author,
}

/// A typed failure: an error kind together with a human-readable message.
#[derive(Debug, Clone)]
pub struct IrohError {
    kind: ErrorKind,
    message: String,
}

impl IrohError {
    /// The kind of this error, as seen by specifications.
    pub closed spec fn spec_kind(&self) -> ErrorKind {
        self.kind
    }

    /// The message of this error, as seen by specifications.
    pub closed spec fn spec_message(&self) -> Seq<char> {
        self.message@
    }

    /// Builds an error of an arbitrary kind.
    pub fn new(kind: ErrorKind, message: String) -> (e: Self)
        ensures
            e.spec_kind() == kind,
            e.spec_message() == message@,
    {
        IrohError { kind, message }
    }

    /// Builds a `RuntimeInit` error.
    pub fn runtime(message: String) -> (e: Self)
        ensures
            e.spec_kind() == ErrorKind::RuntimeInit,
            e.spec_message() == message@,
    {
        IrohError { kind: ErrorKind::RuntimeInit, message }
    }

    /// Builds a `NodeCreate` error.
    pub fn node_create(message: String) -> (e: Self)
        ensures
            e.spec_kind() == ErrorKind::NodeCreate,
            e.spec_message() == message@,
    {
        IrohError { kind: ErrorKind::NodeCreate, message }
    }

    /// Builds a `Doc` error.
    pub fn doc(message: String) -> (e: Self)
        ensures
            e.spec_kind() == ErrorKind::Doc,
            e.spec_message() == message@,
    {
        IrohError { kind: ErrorKind::Doc, message }
    }

    /// Builds a `DocTicketParse` error.
    pub fn doc_ticket(message: String) -> (e: Self)
        ensures
            e.spec_kind() == ErrorKind::DocTicketParse,
            e.spec_message() == message@,
    {
        IrohError { kind: ErrorKind::DocTicketParse, message }
    }

    /// Builds an `Author` error.
    pub fn author(message: String) -> (e: Self)
        ensures
            e.spec_kind() == ErrorKind::Author,
            e.spec_message() == message@,
    {
        IrohError { kind: ErrorKind::Author, message }
    }

    /// The kind of this error.
    pub fn kind(&self) -> (k: ErrorKind)
        ensures
            k == self.spec_kind(),
    {
        self.kind
    }

    /// The message of this error.
    pub fn message(&self) -> (m: &str)
        ensures
            m@ == self.spec_message(),
    {
        self.message.as_str()
    }
}

} // verus!
