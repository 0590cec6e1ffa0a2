//! Process instance repositories: what a repository's failure is.

use vstd::prelude::*;

verus! {
/// Repository Error
#[derive(Debug)]
pub enum RepositoryError {
    OperationFailed(String),
    NotFound(String),
    StorageError(String),
}

/// The text describing a repository error.
pub open spec fn repository_error_text(e: RepositoryError) -> Seq<char> {
    match e {
        RepositoryError::OperationFailed(m) => "Repository operation failed: "@ + m@,
        RepositoryError::NotFound(m) => "Instance not found: "@ + m@,
        RepositoryError::StorageError(m) => "Storage error: "@ + m@,
    }
}

impl RepositoryError {
    /// The text describing this error.
    pub fn message(&self) -> (r: String)
        ensures
            r@ == repository_error_text(*self),
    {
        match self {
            RepositoryError::OperationFailed(m) => "Repository operation failed: ".to_owned().concat(m.as_str()),
            RepositoryError::NotFound(m) => "Instance not found: ".to_owned().concat(m.as_str()),
            RepositoryError::StorageError(m) => "Storage error: ".to_owned().concat(m.as_str()),
        }
    }
}

impl Clone for RepositoryError {
    fn clone(&self) -> (r: Self)
        ensures
            r == *self,
    {
        match self {
            RepositoryError::OperationFailed(m) => RepositoryError::OperationFailed(m.clone()),
            RepositoryError::NotFound(m) => RepositoryError::NotFound(m.clone()),
            RepositoryError::StorageError(m) => RepositoryError::StorageError(m.clone()),
        }
    }
}

} // verus!
