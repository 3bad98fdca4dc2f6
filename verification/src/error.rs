//! What can go wrong in a directory operation.

use vstd::prelude::*;
use crate::types::PrincipalField;

verus! {

/// A failure reported by the key-value store.
#[derive(Clone, Debug, PartialEq, Eq)]
pub enum StoreError {
    /// A value assertion of the batch did not hold, so nothing was written.
    AssertionFailure,
    /// A stored key or value could not be decoded.
    DataCorruption,
    /// Any other failure, with the store's own description.
    Failed(String),
}

/// The mathematical value of a [`StoreError`].
pub enum StoreFault {
    AssertionFailure,
    DataCorruption,
    Failed(Seq<char>),
}

impl View for StoreError {
    type V = StoreFault;

    open spec fn view(&self) -> StoreFault {
        match self {
            StoreError::AssertionFailure => StoreFault::AssertionFailure,
            StoreError::DataCorruption => StoreFault::DataCorruption,
            StoreError::Failed(text) => StoreFault::Failed(text@),
        }
    }
}

impl StoreError {
    /// Whether the store rejected the batch because an assertion did not hold.
    pub fn is_assertion_failure(&self) -> (r: bool)
        ensures
            r == (self@ == StoreFault::AssertionFailure),
    {
        match self {
            StoreError::AssertionFailure => true,
            _ => false,
        }
    }
}

/// A failure of a directory operation.
#[derive(Clone, Debug, PartialEq, Eq)]
pub enum DirectoryError {
    /// A required field is absent or empty.
    MissingParameter(PrincipalField),
    /// A name or address is already in use; the field and the value.
    AlreadyExists(PrincipalField, String),
    /// A referenced principal, domain or tenant does not exist or is out of
    /// the tenant's sight.
    NotFound(String),
    /// The request is malformed or asks for what is not offered.
    NotSupported(Option<String>),
    /// A rule of the directory is violated; what is wrong, and why.
    Error(String, Option<String>),
    /// The store failed.
    Store(StoreError),
}

/// The mathematical value of a [`DirectoryError`].
pub enum Fault {
    MissingParameter(PrincipalField),
    AlreadyExists(PrincipalField, Seq<char>),
    NotFound(Seq<char>),
    NotSupported(Option<Seq<char>>),
    Error(Seq<char>, Option<Seq<char>>),
    Store(StoreFault),
}

/// The characters of an optional text.
pub open spec fn text_of(t: Option<String>) -> Option<Seq<char>> {
    match t {
        Some(s) => Some(s@),
        None => None,
    }
}

impl View for DirectoryError {
    type V = Fault;

    open spec fn view(&self) -> Fault {
        match self {
            DirectoryError::MissingParameter(field) => Fault::MissingParameter(*field),
            DirectoryError::AlreadyExists(field, value) => Fault::AlreadyExists(*field, value@),
            DirectoryError::NotFound(value) => Fault::NotFound(value@),
            DirectoryError::NotSupported(details) => Fault::NotSupported(text_of(*details)),
            DirectoryError::Error(details, reason) => Fault::Error(details@, text_of(*reason)),
            DirectoryError::Store(inner) => Fault::Store(inner@),
        }
    }
}

/// The failure of a request that lacks a field.
pub fn err_missing(field: PrincipalField) -> (r: DirectoryError)
    ensures
        r@ == Fault::MissingParameter(field),
{
    DirectoryError::MissingParameter(field)
}

/// The failure of a request whose name or address is taken.
pub fn err_exists(field: PrincipalField, value: String) -> (r: DirectoryError)
    ensures
        r@ == Fault::AlreadyExists(field, value@),
{
    DirectoryError::AlreadyExists(field, value)
}

/// The failure of a request that refers to what does not exist.
pub fn not_found(value: String) -> (r: DirectoryError)
    ensures
        r@ == Fault::NotFound(value@),
{
    DirectoryError::NotFound(value)
}

/// The failure of a request that is not supported, with the reason.
pub fn unsupported(details: String) -> (r: DirectoryError)
    ensures
        r@ == Fault::NotSupported(Some(details@)),
{
    DirectoryError::NotSupported(Some(details))
}

/// The failure of a request for a feature that is not offered.
pub fn enterprise() -> (r: DirectoryError)
    ensures
        r@ == Fault::NotSupported(Some("Enterprise feature"@)),
{
    DirectoryError::NotSupported(Some(crate::text::owned("Enterprise feature")))
}

/// The failure of a request that breaks a rule of the directory.
pub fn error(details: String, reason: Option<String>) -> (r: DirectoryError)
    ensures
        r@ == Fault::Error(details@, text_of(reason)),
{
    DirectoryError::Error(details, reason)
}

} // verus!
