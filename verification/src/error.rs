//! The errors of the library.

use vstd::prelude::*;

use crate::types::System;

verus! {

/// What kind of failure an [`IoError`] is.
#[derive(Clone, Copy, Debug, PartialEq, Eq, Structural)]
pub enum ErrorKind {
    NotFound,
    ResourceBusy,
    Unsupported,
    TimedOut,
    InvalidData,
    UnexpectedEof,
    BrokenPipe,
    Other,
}

/// What an [`IoError`] says of itself.
#[derive(Clone, Debug)]
pub enum Detail {
    /// Nothing beyond its kind.
    Kind,
    /// A message of the library.
    Text(&'static str),
    /// A message made up on the spot, of the system, or of the other end of a
    /// connection.
    Owned(String),
}

/// A failure of a transfer, of a device or of a connection.
#[derive(Clone, Debug)]
pub struct IoError {
    pub kind: ErrorKind,
    pub detail: Detail,
}

/// An error of Tunelith.
#[derive(Clone, Debug)]
pub enum Error {
    /// An I/O error, including those tunelithd reports.
    Io(IoError),
    /// The [`TuneParams`](crate::types::TuneParams) do not go together.
    InvalidParams(&'static str),
    /// The tuner does not receive the system.
    Unsupported(System),
    /// The tuner found no signal to lock on.
    NoLock,
    /// No device or tuner has the id.
    NotFound(String),
}

impl Error {
    /// Whether the tuner, or every tuner that could serve, is in use.
    pub open spec fn busy(self) -> bool {
        self matches Error::Io(e) && e.kind == ErrorKind::ResourceBusy
    }

    /// Whether the tuner, or every tuner that could serve, is in use.
    pub fn is_busy(&self) -> (r: bool)
        ensures
            r == self.busy(),
    {
        match self {
            Error::Io(e) => e.kind == ErrorKind::ResourceBusy,
            _ => false,
        }
    }

    /// What [`message`](Self::message) gives.
    pub open spec fn text(self) -> Seq<char> {
        match self {
            Error::Io(e) => match e.detail {
                Detail::Kind => kind_text(e.kind)@,
                Detail::Text(t) => t@,
                Detail::Owned(t) => t@,
            },
            Error::InvalidParams(why) => "invalid tuning parameters: "@ + why@,
            Error::Unsupported(system) => "the tuner cannot receive "@ + system.name_text()@,
            Error::NoLock => "the tuner could not lock on the signal"@,
            Error::NotFound(what) => "no such device or tuner: "@ + what@,
        }
    }

    /// The error in words.
    pub fn message(&self) -> (r: String)
        ensures
            r@ == self.text(),
    {
        match self {
            Error::Io(e) => match &e.detail {
                Detail::Kind => kind_name(e.kind).to_owned(),
                Detail::Text(t) => (*t).to_owned(),
                Detail::Owned(t) => t.clone(),
            },
            Error::InvalidParams(why) => "invalid tuning parameters: ".to_owned().concat(why),
            Error::Unsupported(system) => "the tuner cannot receive ".to_owned().concat(
                system.name(),
            ),
            Error::NoLock => "the tuner could not lock on the signal".to_owned(),
            Error::NotFound(what) => "no such device or tuner: ".to_owned().concat(what.as_str()),
        }
    }
}

/// A kind of failure in words.
pub open spec fn kind_text(kind: ErrorKind) -> &'static str {
    match kind {
        ErrorKind::NotFound => "entity not found",
        ErrorKind::ResourceBusy => "resource busy",
        ErrorKind::Unsupported => "unsupported",
        ErrorKind::TimedOut => "timed out",
        ErrorKind::InvalidData => "invalid data",
        ErrorKind::UnexpectedEof => "unexpected end of file",
        ErrorKind::BrokenPipe => "broken pipe",
        ErrorKind::Other => "other error",
    }
}

fn kind_name(kind: ErrorKind) -> (r: &'static str)
    ensures
        r == kind_text(kind),
{
    match kind {
        ErrorKind::NotFound => "entity not found",
        ErrorKind::ResourceBusy => "resource busy",
        ErrorKind::Unsupported => "unsupported",
        ErrorKind::TimedOut => "timed out",
        ErrorKind::InvalidData => "invalid data",
        ErrorKind::UnexpectedEof => "unexpected end of file",
        ErrorKind::BrokenPipe => "broken pipe",
        ErrorKind::Other => "other error",
    }
}

/// A failure that is no more than its message.
pub open spec fn failure(message: &'static str) -> Error {
    Error::Io(IoError { kind: ErrorKind::Other, detail: Detail::Text(message) })
}

/// A failure that is no more than its message.
#[verifier::when_used_as_spec(failure)]
pub fn error(message: &'static str) -> (r: Error)
    ensures
        r == failure(message),
{
    Error::Io(IoError { kind: ErrorKind::Other, detail: Detail::Text(message) })
}

/// A failure that is no more than its kind.
pub open spec fn bare(kind: ErrorKind) -> Error {
    Error::Io(IoError { kind, detail: Detail::Kind })
}

/// A failure that is no more than its kind.
#[verifier::when_used_as_spec(bare)]
pub fn of_kind(kind: ErrorKind) -> (r: Error)
    ensures
        r == bare(kind),
{
    Error::Io(IoError { kind, detail: Detail::Kind })
}

/// A failure of `kind` with a message.
pub open spec fn told(kind: ErrorKind, message: &'static str) -> Error {
    Error::Io(IoError { kind, detail: Detail::Text(message) })
}

/// A failure of `kind` with a message.
#[verifier::when_used_as_spec(told)]
pub fn of_kind_with(kind: ErrorKind, message: &'static str) -> (r: Error)
    ensures
        r == told(kind, message),
{
    Error::Io(IoError { kind, detail: Detail::Text(message) })
}

} // verus!
