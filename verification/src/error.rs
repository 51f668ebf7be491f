//! The library's error type.

use vstd::prelude::*;
use zip::result::ZipError;

verus! {

/// Why an operation of the library failed.
#[derive(Debug)]
pub enum RzError {
    /// A path that has to exist on the file system does not. Holds the path.
    FileNotFound(String),
    /// A name picked for extraction is not in the archive. Holds the name.
    EntryNotFound(String),
    /// A path or name cannot be turned into an entry name. Holds it.
    BadName(String),
    /// The codec refused an archive or an entry.
    ZipError(ZipError),
    /// Reading or writing bytes failed.
    IoError(std::io::Error),
    /// A failure outside the cases above. Holds a message.
    GeneralError(String),
    /// The session does not hold the handle that the operation needs.
    RZNotReady,
}

/// An error as contracts speak of it: its strings as sequences of
/// characters.
pub enum Failure {
    FileNotFound(Seq<char>),
    EntryNotFound(Seq<char>),
    BadName(Seq<char>),
    ZipError(ZipError),
    IoError(std::io::Error),
    GeneralError(Seq<char>),
    RZNotReady,
}

impl View for RzError {
    type V = Failure;

    open spec fn view(&self) -> Failure {
        match *self {
            RzError::FileNotFound(path) => Failure::FileNotFound(path@),
            RzError::EntryNotFound(name) => Failure::EntryNotFound(name@),
            RzError::BadName(name) => Failure::BadName(name@),
            RzError::ZipError(e) => Failure::ZipError(e),
            RzError::IoError(e) => Failure::IoError(e),
            RzError::GeneralError(message) => Failure::GeneralError(message@),
            RzError::RZNotReady => Failure::RZNotReady,
        }
    }
}

} // verus!
