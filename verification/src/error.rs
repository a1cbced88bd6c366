//! The ways in which an operation on stored records fails.

use vstd::prelude::*;

verus! {

/// Why an operation failed.
#[derive(Clone, Copy, Debug, PartialEq, Eq, Structural)]
pub enum StoreError {
    /// No record goes under the identifier, or none that belongs to the
    /// given owner.
    NotFound,
    /// The storage layer refused the operation.
    StorageFault,
}

impl StoreError {
    /// The HTTP status that reports this failure.
    pub open spec fn status(self) -> u16 {
        match self {
            StoreError::NotFound => 404,
            StoreError::StorageFault => 500,
        }
    }

    /// What the caller is told: the kind of failure and nothing of its
    /// cause.
    pub open spec fn text(self) -> Seq<char> {
        match self {
            StoreError::NotFound => "not found"@,
            StoreError::StorageFault => "internal error"@,
        }
    }

    /// The HTTP status that reports this failure: 404 where nothing was
    /// found, 500 on a storage fault.
    pub fn status_code(&self) -> (code: u16)
        ensures
            code == self.status(),
    {
        match self {
            StoreError::NotFound => 404,
            StoreError::StorageFault => 500,
        }
    }

    /// What a deletion that removed `rows_affected` rows comes to: a
    /// deletion that removed nothing found nothing.
    pub fn deletion_outcome(rows_affected: u64) -> (outcome: Result<(), StoreError>)
        ensures
            rows_affected == 0 ==> outcome == Err::<(), StoreError>(StoreError::NotFound),
            rows_affected != 0 ==> outcome == Ok::<(), StoreError>(()),
    {
        if rows_affected == 0 {
            Err(StoreError::NotFound)
        } else {
            Ok(())
        }
    }

    /// The message for the caller.
    pub fn message(&self) -> (message: String)
        ensures
            message@ == self.text(),
    {
        match self {
            StoreError::NotFound => "not found".to_owned(),
            StoreError::StorageFault => "internal error".to_owned(),
        }
    }
}

} // verus!
