//! What can stop a run: a source that cannot be opened or read, or a sink that
//! cannot be written.

use vstd::prelude::*;

verus! {

/// `std::io::Error`, which the library carries from the failed operation to
/// the caller and never looks into.
#[verifier::external_type_specification]
#[verifier::external_body]
pub struct ExIoError(std::io::Error);

/// Which operation failed.
#[derive(Clone, Copy, Debug, PartialEq, Eq, Structural)]
pub enum RsvErrorKind {
    Read,
    Write,
    Open,
}

impl RsvErrorKind {
    /// The exit status that stands for this kind: 1 for a failed read, 2 for a
    /// failed write, 3 for a failed open. None is 0, which stands for success.
    pub open spec fn status(self) -> u8 {
        match self {
            RsvErrorKind::Read => 1,
            RsvErrorKind::Write => 2,
            RsvErrorKind::Open => 3,
        }
    }

    /// The exit status with which a run that failed in this way ends.
    pub fn report(self) -> (code: u8)
        ensures
            code == self.status(),
            code != 0,
    {
        match self {
            RsvErrorKind::Read => 1,
            RsvErrorKind::Write => 2,
            RsvErrorKind::Open => 3,
        }
    }
}

/// The exit status tells which operation failed: no two kinds share one, and
/// none has the status of success.
pub proof fn lemma_status_tells_kind(a: RsvErrorKind, b: RsvErrorKind)
    ensures
        a.status() == b.status() ==> a == b,
        a.status() != 0,
{
}

/// A failure, with the name of the source that was being decoded and the
/// cause as the operating system gave it.
#[derive(Debug)]
pub struct RsvError {
    pub kind: RsvErrorKind,
    pub file_name: String,
    pub source: std::io::Error,
}

impl RsvError {
    /// A byte could not be read from the source `file_name`.
    pub fn read(file_name: String, source: std::io::Error) -> (error: RsvError)
        ensures
            error.kind == RsvErrorKind::Read,
            error.file_name == file_name,
            error.source == source,
    {
        RsvError { kind: RsvErrorKind::Read, file_name, source }
    }

    /// Output could not be written while the source `file_name` was decoded.
    pub fn write(file_name: String, source: std::io::Error) -> (error: RsvError)
        ensures
            error.kind == RsvErrorKind::Write,
            error.file_name == file_name,
            error.source == source,
    {
        RsvError { kind: RsvErrorKind::Write, file_name, source }
    }

    /// The source `file_name` could not be opened.
    pub fn open(file_name: String, source: std::io::Error) -> (error: RsvError)
        ensures
            error.kind == RsvErrorKind::Open,
            error.file_name == file_name,
            error.source == source,
    {
        RsvError { kind: RsvErrorKind::Open, file_name, source }
    }

    /// The exit status with which a run that met this failure ends.
    pub fn report(&self) -> (code: u8)
        ensures
            code == self.kind.status(),
            code != 0,
    {
        self.kind.report()
    }
}

} // verus!
