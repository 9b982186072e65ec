//! Error kinds of the converter.
use vstd::prelude::*;

verus! {

/// Failures about a component identifier or the data fetched for it.
#[derive(Debug, Clone, PartialEq, Eq)]
pub enum EasyedaError {
    /// The identifier is not `C` followed by at least one more character.
    InvalidLcscId(String),
    /// The request to the remote source failed.
    ApiRequest(String),
    /// The remote source has no such component.
    ComponentNotFound(String),
    /// The payload lacked a field or could not be read.
    InvalidData(String),
}

/// Failures of the shared library files.
#[derive(Debug, Clone, PartialEq, Eq)]
pub enum LibraryError {
    /// An entry of this name exists and overwriting was not allowed.
    DuplicateComponent(String),
    /// Reading or writing a library file failed.
    Io(String),
}

/// Any failure of the converter.
#[derive(Debug, Clone, PartialEq, Eq)]
pub enum AppError {
    Easyeda(EasyedaError),
    Library(LibraryError),
    Other(String),
}

} // verus!
