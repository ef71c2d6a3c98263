use vstd::prelude::*;

verus! {

/// Why an operation on the store failed.
#[derive(Clone, Debug)]
pub enum StoreError {
    /// The backing store is unreachable, unwritable or corrupt; carries the cause.
    Storage(String),
    /// The car number asked for is already held by another scout.
    UniquenessViolation,
    /// No scout has the id asked for.
    NotFound,
}

/// How the storage backend reported a failure.
#[derive(Clone, Copy, Debug, PartialEq, Eq, Structural)]
pub enum FailureKind {
    /// A uniqueness constraint rejected a write.
    UniqueViolation,
    /// A query that needs one row found none.
    RowNotFound,
    /// Any other failure of the backend.
    Other,
}

impl StoreError {
    /// Sorts a backend failure into the error taxonomy, keeping the cause text
    /// of a storage failure.
    pub fn classify(kind: FailureKind, message: String) -> (r: StoreError)
        ensures
            kind == FailureKind::UniqueViolation ==> r == StoreError::UniquenessViolation,
            kind == FailureKind::RowNotFound ==> r == StoreError::NotFound,
            kind == FailureKind::Other ==> r == StoreError::Storage(message),
    {
        match kind {
            FailureKind::UniqueViolation => StoreError::UniquenessViolation,
            FailureKind::RowNotFound => StoreError::NotFound,
            FailureKind::Other => StoreError::Storage(message),
        }
    }

    /// Whether the caller can recover from this failure.
    pub fn is_recoverable(&self) -> (r: bool)
        ensures
            r == !(self is Storage),
    {
        !matches!(self, StoreError::Storage(_))
    }

    /// A description of the failure for the person at the desk.
    pub fn describe(&self) -> (r: String)
        ensures
            self is Storage ==> r@ == self->Storage_0@,
            self is UniquenessViolation ==> r@ == "car number is already in use"@,
            self is NotFound ==> r@ == "no scout has that id"@,
    {
        match self {
            StoreError::Storage(m) => m.clone(),
            StoreError::UniquenessViolation => "car number is already in use".to_owned(),
            StoreError::NotFound => "no scout has that id".to_owned(),
        }
    }
}

} // verus!
