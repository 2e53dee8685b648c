//! Errors reported by the storage engine.

use vstd::prelude::*;

verus! {

/// Why a storage operation was refused.
#[derive(Clone, Copy, Debug, PartialEq, Eq, Structural)]
pub enum StoreErrorKind {
    /// The request itself is malformed.
    InvalidInput,
    /// Stored data breaks an invariant of the storage format.
    InvalidData,
    /// The request does not fit the current stored state.
    Conflict,
    /// The store, or the owner asked for, cannot serve requests.
    Unavailable,
    /// A file or directory that the request needs is not usable.
    ResourceUnavailable,
    /// The machine or a storage limit prevented the operation.
    Internal,
}

/// An error with the kind a caller acts on and a fixed explanation.
#[derive(Clone, Copy, Debug, PartialEq, Eq)]
pub struct StoreError {
    pub kind: StoreErrorKind,
    pub message: &'static str,
}

/// The result of a storage operation.
pub type StorageResult<T> = Result<T, StoreError>;

/// The mathematical content of a [`StoreError`].
pub struct Refusal {
    pub kind: StoreErrorKind,
    pub message: Seq<char>,
}

impl View for StoreError {
    type V = Refusal;

    open spec fn view(&self) -> Refusal {
        Refusal { kind: self.kind, message: self.message@ }
    }
}

impl StoreError {
    pub fn new(kind: StoreErrorKind, message: &'static str) -> (error: StoreError)
        ensures
            error@ == refusal(kind, message@),
    {
        StoreError { kind, message }
    }

    pub fn kind(&self) -> (kind: StoreErrorKind)
        ensures
            kind == self@.kind,
    {
        self.kind
    }
}

pub open spec fn refusal(kind: StoreErrorKind, message: Seq<char>) -> Refusal {
    Refusal { kind, message }
}

pub open spec fn conflicting(message: Seq<char>) -> Refusal {
    refusal(StoreErrorKind::Conflict, message)
}

pub open spec fn malformed(message: Seq<char>) -> Refusal {
    refusal(StoreErrorKind::InvalidInput, message)
}

pub open spec fn corrupt(message: Seq<char>) -> Refusal {
    refusal(StoreErrorKind::InvalidData, message)
}

pub open spec fn failed(message: Seq<char>) -> Refusal {
    refusal(StoreErrorKind::Internal, message)
}

/// The error for a request that the current state does not admit.
pub fn conflict(message: &'static str) -> (error: StoreError)
    ensures
        error@ == conflicting(message@),
{
    StoreError { kind: StoreErrorKind::Conflict, message }
}

/// The error for a request that is malformed.
pub fn invalid_input(message: &'static str) -> (error: StoreError)
    ensures
        error@ == malformed(message@),
{
    StoreError { kind: StoreErrorKind::InvalidInput, message }
}

/// The error for stored data that breaks the storage format.
pub fn invalid_data(message: &'static str) -> (error: StoreError)
    ensures
        error@ == corrupt(message@),
{
    StoreError { kind: StoreErrorKind::InvalidData, message }
}

/// The error for an operation that a limit of the store stopped.
pub fn internal_error(message: &'static str) -> (error: StoreError)
    ensures
        error@ == failed(message@),
{
    StoreError { kind: StoreErrorKind::Internal, message }
}

/// A result with its error seen as what it says.
pub open spec fn outcome_of<T>(result: StorageResult<T>) -> Result<T, Refusal> {
    match result {
        Ok(value) => Ok(value),
        Err(error) => Err(error@),
    }
}

/// A result with its list seen as a sequence and its error as what it says.
pub open spec fn list_outcome<T>(result: StorageResult<Vec<T>>) -> Result<Seq<T>, Refusal> {
    match result {
        Ok(list) => Ok(list@),
        Err(error) => Err(error@),
    }
}

} // verus!
